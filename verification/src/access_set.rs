//! The access set: a perfect binary Merkle tree over identity commitments.
//!
//! The tree is read-only once constructed. Leaves are addressed by a
//! zero-based index whose low bits are the path directions from the leaf
//! side; the cap is the set of nodes at a chosen truncation level, the
//! single root when the cap height is zero.

use vstd::prelude::*;

use vstd::arithmetic::div_mod::lemma_div_denominator;
use vstd::arithmetic::div_mod::lemma_fundamental_div_mod;
use vstd::arithmetic::div_mod::lemma_multiply_divide_lt;

use core::marker::PhantomData;

use crate::backend::Backend;
use crate::error::SignalError;
use crate::field::Digest;

verus! {

/// Two to the power `k`.
pub open spec fn pow2(k: nat) -> nat
    decreases k,
{
    if k == 0 {
        1
    } else {
        2 * pow2((k - 1) as nat)
    }
}

pub proof fn lemma_pow2_pos(k: nat)
    ensures
        pow2(k) >= 1,
    decreases k,
{
    if k > 0 {
        lemma_pow2_pos((k - 1) as nat);
    }
}

pub proof fn lemma_pow2_increases(a: nat, b: nat)
    requires
        a <= b,
    ensures
        pow2(a) <= pow2(b),
        a < b ==> pow2(a) < pow2(b),
    decreases b,
{
    if a < b {
        lemma_pow2_increases(a, (b - 1) as nat);
        lemma_pow2_pos(a);
    }
}

/// Every power of two exceeds its exponent.
pub proof fn lemma_pow2_grows(k: nat)
    ensures
        pow2(k) > k,
    decreases k,
{
    if k > 0 {
        lemma_pow2_grows((k - 1) as nat);
    }
}

/// An odd number above one times a power of two is no power of two.
proof fn lemma_odd_times_pow2_not_pow2(m: nat, a: nat, g: nat)
    requires
        m % 2 == 1,
        m > 1,
    ensures
        m * pow2(a) != pow2(g),
    decreases a + g,
{
    if a == 0 {
        assert(pow2(0) == 1);
        assert(m * pow2(0) == m) by (nonlinear_arith)
            requires
                pow2(0) == 1,
        ;
        if g > 0 {
            let half = pow2((g - 1) as nat);
            assert(pow2(g) == 2 * half);
            assert((2 * half) % 2 == 0) by (nonlinear_arith);
        }
    } else if g == 0 {
        lemma_pow2_pos((a - 1) as nat);
        assert(pow2(a) >= 2);
        assert(m * pow2(a) >= 2 * 2) by (nonlinear_arith)
            requires
                m >= 2,
                pow2(a) >= 2,
        ;
    } else {
        let pa = pow2((a - 1) as nat);
        assert(m * (2 * pa) == 2 * (m * pa)) by (nonlinear_arith);
        lemma_odd_times_pow2_not_pow2(m, (a - 1) as nat, (g - 1) as nat);
    }
}

/// The element views of a sequence of digests.
pub open spec fn digest_views(ds: Seq<Digest>) -> Seq<Seq<u64>> {
    Seq::new(ds.len(), |i: int| ds[i]@)
}

/// Every digest in the sequence is well formed.
pub open spec fn all_digests_wf(ds: Seq<Digest>) -> bool {
    forall|i: int| 0 <= i < ds.len() ==> (#[trigger] ds[i]).wf()
}

/// The Merkle node at level `k` above the leaves, position `j`: the leaf
/// itself at level zero, else the hash of its two children's concatenation.
pub open spec fn merkle_node<B: Backend>(lv: Seq<Seq<u64>>, k: nat, j: nat) -> Seq<u64>
    decreases k,
{
    if k == 0 {
        lv[j as int]
    } else {
        B::hash_spec(
            merkle_node::<B>(lv, (k - 1) as nat, 2 * j) + merkle_node::<B>(
                lv,
                (k - 1) as nat,
                2 * j + 1,
            ),
        )
    }
}

/// The position of the sibling of node `j` within its level.
pub open spec fn sibling_of(j: nat) -> nat {
    if j % 2 == 0 {
        j + 1
    } else {
        (j - 1) as nat
    }
}

/// The authentication path of the leaf at `index`: for each level `k` below
/// the cap, the sibling of the node the leaf folds into at that level.
pub open spec fn auth_path<B: Backend>(lv: Seq<Seq<u64>>, index: nat, len: nat) -> Seq<Seq<u64>> {
    Seq::new(len, |k: int| merkle_node::<B>(lv, k as nat, sibling_of(index / pow2(k as nat))))
}

/// Folds a leaf digest up a path of siblings: at each level the current node
/// is the left child when the matching index bit is zero, the right child
/// otherwise, and the next node is the hash of the ordered pair.
pub open spec fn fold_path<B: Backend>(leaf: Seq<u64>, sibs: Seq<Seq<u64>>, index: nat) -> Seq<u64>
    decreases sibs.len(),
{
    if sibs.len() == 0 {
        leaf
    } else {
        let next = if index % 2 == 0 {
            B::hash_spec(leaf + sibs[0])
        } else {
            B::hash_spec(sibs[0] + leaf)
        };
        fold_path::<B>(next, sibs.drop_first(), index / 2)
    }
}

/// The Merkle-committed set of identity commitments forming the group.
///
/// `levels[0]` holds the leaves; each higher level holds the hashes of the
/// pairs below it, up to the single root. The generic parameter fixes the
/// hash the tree is built with.
pub struct AccessSet<B: Backend> {
    levels: Vec<Vec<Digest>>,
    cap_height: usize,
    backend: PhantomData<B>,
}

impl<B: Backend> AccessSet<B> {
    /// The tree height: the number of hashing levels above the leaves.
    pub closed spec fn height(&self) -> nat {
        (self.levels@.len() - 1) as nat
    }

    /// The cap height: the truncation level the cap sits at, from the top.
    pub closed spec fn cap_h(&self) -> nat {
        self.cap_height as nat
    }

    /// The ordered leaf digests.
    pub closed spec fn leaves(&self) -> Seq<Digest> {
        self.levels@[0]@
    }

    /// The element views of the leaves.
    pub open spec fn lviews(&self) -> Seq<Seq<u64>> {
        digest_views(self.leaves())
    }

    /// The cap digests, in order.
    pub closed spec fn cap(&self) -> Seq<Digest> {
        self.levels@[self.height() - self.cap_h()]@
    }

    /// The element views of the cap.
    pub open spec fn cap_views(&self) -> Seq<Seq<u64>> {
        digest_views(self.cap())
    }

    /// Shape and content invariant: a power-of-two leaf count, one level per
    /// height step, and every stored node equal to the Merkle node the hash
    /// defines over the leaves.
    pub closed spec fn wf(&self) -> bool {
        &&& self.levels@.len() >= 2
        &&& self.cap_h() <= self.height()
        &&& (forall|k: int|
            0 <= k < self.levels@.len() ==> (#[trigger] self.levels@[k]@.len()) == pow2(
                (self.height() - k) as nat,
            ))
        &&& (forall|k: int, j: int|
            0 <= k < self.levels@.len() && 0 <= j < self.levels@[k]@.len() ==> {
                &&& (#[trigger] self.levels@[k]@[j])@ == merkle_node::<B>(
                    self.lviews(),
                    k as nat,
                    j as nat,
                )
                &&& self.levels@[k]@[j].wf()
            })
    }

    /// Whether a leaf vector and cap height admit construction: well-formed
    /// digests, a leaf count that is a power of two with height at least
    /// one, and a cap no deeper than the tree.
    pub open spec fn constructible(leaves: Seq<Digest>, cap_height: usize) -> bool {
        &&& all_digests_wf(leaves)
        &&& exists|h: nat|
            h >= 1 && leaves.len() == #[trigger] pow2(h) && cap_height as nat <= h
    }

    /// Builds the tree bottom-up from the leaf digests, hashing concatenated
    /// child pairs, and keeps every internal level.
    pub fn new(leaves: Vec<Digest>, cap_height: usize) -> (r: Result<AccessSet<B>, SignalError>)
        ensures
            r.is_ok() <==> Self::constructible(leaves@, cap_height),
            match r {
                Ok(s) => {
                    &&& s.wf()
                    &&& s.leaves() == leaves@
                    &&& s.cap_h() == cap_height as nat
                    &&& s.height() >= 1
                    &&& pow2(s.height()) == s.leaves().len()
                },
                Err(e) => e is BadArgument,
            },
    {
        let n = leaves.len();
        // Reject leaf counts that are no power of two at least 2, and find
        // the height of those that are.
        if n < 2 {
            proof {
                lemma_pow2_pos(0);
                assert forall|h: nat| h >= 1 implies leaves@.len() != pow2(h) by {
                    lemma_pow2_increases(1, h);
                }
            }
            return Err(SignalError::BadArgument);
        }
        let mut m = n;
        let mut h: usize = 0;
        while m > 1
            invariant
                1 <= m <= n,
                n == leaves@.len(),
                n >= 2,
                n == m * pow2(h as nat),
                pow2(h as nat) <= n,
            decreases m,
        {
            if m % 2 != 0 {
                proof {
                    assert forall|g: nat| leaves@.len() != pow2(g) by {
                        lemma_odd_times_pow2_not_pow2(m as nat, h as nat, g);
                    }
                }
                return Err(SignalError::BadArgument);
            }
            proof {
                lemma_fundamental_div_mod(m as int, 2);
                assert((m / 2) * pow2((h + 1) as nat) == m * pow2(h as nat)) by (nonlinear_arith)
                    requires
                        m % 2 == 0,
                        m == 2 * (m / 2),
                        pow2((h + 1) as nat) == 2 * pow2(h as nat),
                ;
                assert(pow2((h + 1) as nat) <= (m / 2) * pow2((h + 1) as nat)) by (nonlinear_arith)
                    requires
                        m / 2 >= 1,
                        pow2((h + 1) as nat) >= 0,
                ;
                lemma_pow2_grows(h as nat);
            }
            m = m / 2;
            h = h + 1;
        }
        // Here n == pow2(h) and h >= 1 because n >= 2.
        proof {
            assert(m == 1);
            assert(n == pow2(h as nat));
            if h == 0 {
                assert(false);
            }
            lemma_pow2_unique(n as nat, h as nat);
        }
        if cap_height > h {
            return Err(SignalError::BadArgument);
        }
        // Reject a leaf whose elements are not canonical.
        let mut i: usize = 0;
        while i < n
            invariant
                0 <= i <= n,
                n == leaves@.len(),
                forall|t: int| 0 <= t < i ==> (#[trigger] leaves@[t]).wf(),
            decreases n - i,
        {
            if !leaves[i].is_wf() {
                return Err(SignalError::BadArgument);
            }
            i = i + 1;
        }
        let ghost l0 = leaves@;
        let ghost lv = digest_views(leaves@);
        let mut levels: Vec<Vec<Digest>> = Vec::new();
        levels.push(leaves);
        let mut k: usize = 0;
        while k < h
            invariant
                0 <= k <= h,
                k < levels@.len(),
                levels@.len() == k + 1,
                levels@[0]@ == l0,
                lv == digest_views(l0),
                n == l0.len(),
                n == pow2(h as nat),
                forall|kk: int|
                    0 <= kk <= k ==> (#[trigger] levels@[kk]@.len()) == pow2((h - kk) as nat),
                forall|kk: int, j: int|
                    0 <= kk <= k && 0 <= j < levels@[kk]@.len() ==> {
                        &&& (#[trigger] levels@[kk]@[j])@ == merkle_node::<B>(lv, kk as nat, j as nat)
                        &&& levels@[kk]@[j].wf()
                    },
            decreases h - k,
        {
            let prev_len = levels[k].len();
            proof {
                assert(pow2((h - k) as nat) == 2 * pow2((h - k - 1) as nat));
                assert((2 * pow2((h - k - 1) as nat)) % 2 == 0) by (nonlinear_arith);
                lemma_fundamental_div_mod(prev_len as int, 2);
            }
            let half = prev_len / 2;
            let mut next: Vec<Digest> = Vec::new();
            let mut j: usize = 0;
            while j < half
                invariant
                    0 <= j <= half,
                    k < h,
                    levels@.len() == k + 1,
                    prev_len == levels@[k as int]@.len(),
                    prev_len == 2 * half,
                    next@.len() == j,
                    forall|kk: int, jj: int|
                        0 <= kk <= k && 0 <= jj < levels@[kk]@.len() ==> {
                            &&& (#[trigger] levels@[kk]@[jj])@ == merkle_node::<B>(
                                lv,
                                kk as nat,
                                jj as nat,
                            )
                            &&& levels@[kk]@[jj].wf()
                        },
                    forall|jj: int|
                        0 <= jj < j ==> {
                            &&& (#[trigger] next@[jj])@ == merkle_node::<B>(
                                lv,
                                (k + 1) as nat,
                                jj as nat,
                            )
                            &&& next@[jj].wf()
                        },
                decreases half - j,
            {
                let left = levels[k][2 * j];
                let right = levels[k][2 * j + 1];
                let mut input = left.to_vec();
                right.append_to(&mut input);
                proof {
                    assert(Digest::seq_wf(input@));
                }
                let node = B::hash(&input);
                proof {
                    assert(merkle_node::<B>(lv, (k + 1) as nat, j as nat) == B::hash_spec(
                        merkle_node::<B>(lv, k as nat, (2 * j) as nat) + merkle_node::<B>(
                            lv,
                            k as nat,
                            (2 * j + 1) as nat,
                        ),
                    ));
                }
                next.push(node);
                j = j + 1;
            }
            levels.push(next);
            k = k + 1;
        }
        let s = AccessSet { levels, cap_height, backend: PhantomData };
        proof {
            assert(s.lviews() =~= lv);
            assert(s.wf());
            assert(exists|hh: nat|
                hh >= 1 && s.leaves().len() == #[trigger] pow2(hh) && cap_height as nat <= hh) by {
                assert(s.leaves().len() == pow2(h as nat));
            }
        }
        Ok(s)
    }

    /// The tree height `h`, where the leaf count is two to the `h`.
    pub fn tree_height(&self) -> (r: usize)
        requires
            self.wf(),
        ensures
            r == self.height(),
    {
        self.levels.len() - 1
    }

    /// The cap height the tree was built with.
    pub fn cap_height(&self) -> (r: usize)
        ensures
            r == self.cap_h(),
    {
        self.cap_height
    }

    /// The number of leaves.
    pub fn num_leaves(&self) -> (r: usize)
        requires
            self.wf(),
        ensures
            r == self.leaves().len(),
    {
        self.levels[0].len()
    }

    /// The ordered cap digests: the nodes at the cap height from the top,
    /// the single root when the cap height is zero.
    pub fn root_cap(&self) -> (r: &Vec<Digest>)
        requires
            self.wf(),
        ensures
            r@ == self.cap(),
            r@.len() == pow2(self.cap_h()),
            all_digests_wf(r@),
    {
        let idx = self.levels.len() - 1 - self.cap_height;
        let r = &self.levels[idx];
        proof {
            assert(r@.len() == pow2((self.height() - (self.height() - self.cap_h())) as nat));
        }
        r
    }
    /// The authentication path of the leaf at `index`: the ordered sibling
    /// digests from the leaf level up to the cap, each the sibling on the
    /// side opposite the matching bit of `index`.
    pub fn open(&self, index: usize) -> (r: Result<Vec<Digest>, SignalError>)
        requires
            self.wf(),
        ensures
            r.is_ok() <==> index < self.leaves().len(),
            match r {
                Ok(path) => {
                    &&& path@.len() == self.height() - self.cap_h()
                    &&& digest_views(path@) == auth_path::<B>(
                        self.lviews(),
                        index as nat,
                        (self.height() - self.cap_h()) as nat,
                    )
                    &&& all_digests_wf(path@)
                },
                Err(e) => e is BadArgument,
            },
    {
        let n = self.levels[0].len();
        if index >= n {
            return Err(SignalError::BadArgument);
        }
        let h = self.levels.len() - 1;
        let len = h - self.cap_height;
        let mut path: Vec<Digest> = Vec::new();
        let mut idx = index;
        let mut k: usize = 0;
        proof {
            assert(pow2(0) == 1);
        }
        while k < len
            invariant
                self.wf(),
                0 <= k <= len,
                h == self.height(),
                len == self.height() - self.cap_h(),
                n == self.leaves().len(),
                index < n,
                idx <= index,
                idx == index as nat / pow2(k as nat),
                path@.len() == k,
                forall|t: int|
                    0 <= t < k ==> {
                        &&& (#[trigger] path@[t])@ == merkle_node::<B>(
                            self.lviews(),
                            t as nat,
                            sibling_of(index as nat / pow2(t as nat)),
                        )
                        &&& path@[t].wf()
                    },
            decreases len - k,
        {
            proof {
                lemma_pow2_adds(k as nat, (h - k) as nat);
                lemma_pow2_pos(k as nat);
                lemma_multiply_divide_lt(
                    index as int,
                    pow2(k as nat) as int,
                    pow2((h - k) as nat) as int,
                );
                assert(pow2((h - k) as nat) == 2 * pow2((h - k - 1) as nat));
                assert((2 * pow2((h - k - 1) as nat)) % 2 == 0) by (nonlinear_arith);
            }
            let sib = if idx % 2 == 0 {
                idx + 1
            } else {
                idx - 1
            };
            let d = self.levels[k][sib];
            path.push(d);
            proof {
                lemma_div_denominator(index as int, pow2(k as nat) as int, 2);
                assert(pow2(k as nat) * 2 == pow2((k + 1) as nat)) by (nonlinear_arith)
                    requires
                        pow2((k + 1) as nat) == 2 * pow2(k as nat),
                ;
            }
            idx = idx / 2;
            k = k + 1;
        }
        proof {
            assert(digest_views(path@) =~= auth_path::<B>(
                self.lviews(),
                index as nat,
                (self.height() - self.cap_h()) as nat,
            ));
        }
        Ok(path)
    }
}

/// Folding a node's digest up `len` levels of authentication siblings lands
/// on the ancestor node `len` levels above, at the position given by the
/// high bits of the start position.
proof fn lemma_fold_from<B: Backend>(lv: Seq<Seq<u64>>, start: nat, j: nat, len: nat)
    ensures
        fold_path::<B>(
            merkle_node::<B>(lv, start, j),
            Seq::new(
                len,
                |t: int| merkle_node::<B>(lv, (start + t) as nat, sibling_of(j / pow2(t as nat))),
            ),
            j,
        ) == merkle_node::<B>(lv, (start + len) as nat, j / pow2(len)),
    decreases len,
{
    let sibs = Seq::new(
        len,
        |t: int| merkle_node::<B>(lv, (start + t) as nat, sibling_of(j / pow2(t as nat))),
    );
    if len == 0 {
        assert(pow2(0) == 1);
        assert(j / pow2(0) == j);
    } else {
        assert(pow2(0) == 1);
        assert(j / pow2(0) == j);
        let cur = merkle_node::<B>(lv, start, j);
        let sib = merkle_node::<B>(lv, start, sibling_of(j));
        assert(sibs[0] == sib);
        lemma_fundamental_div_mod(j as int, 2);
        let next = if j % 2 == 0 {
            B::hash_spec(cur + sib)
        } else {
            B::hash_spec(sib + cur)
        };
        assert(next == merkle_node::<B>(lv, (start + 1) as nat, j / 2)) by {
            if j % 2 == 0 {
                assert(2 * (j / 2) == j);
                assert(2 * (j / 2) + 1 == sibling_of(j));
            } else {
                assert(2 * (j / 2) == sibling_of(j));
                assert(2 * (j / 2) + 1 == j);
            }
        }
        lemma_fold_from::<B>(lv, (start + 1) as nat, j / 2, (len - 1) as nat);
        let tail = Seq::new(
            (len - 1) as nat,
            |t: int|
                merkle_node::<B>(
                    lv,
                    (start + 1 + t) as nat,
                    sibling_of((j / 2) / pow2(t as nat)),
                ),
        );
        assert forall|t: int| 0 <= t < len - 1 implies sibs.drop_first()[t] == tail[t] by {
            lemma_pow2_pos(t as nat);
            lemma_div_denominator(j as int, 2, pow2(t as nat) as int);
            assert(2 * pow2(t as nat) == pow2((t + 1) as nat));
        }
        assert(sibs.drop_first() =~= tail);
        lemma_pow2_pos((len - 1) as nat);
        lemma_div_denominator(j as int, 2, pow2((len - 1) as nat) as int);
        assert(2 * pow2((len - 1) as nat) == pow2(len));
    }
}

/// Re-hashing the leaf at `index` with its authentication path, using the
/// bit decomposition of `index` to order children at each level, reproduces
/// the cap entry indexed by the high bits of `index`.
pub proof fn lemma_path_reconstructs_cap<B: Backend>(s: AccessSet<B>, index: nat)
    requires
        s.wf(),
        index < s.leaves().len(),
    ensures
        index / pow2((s.height() - s.cap_h()) as nat) < s.cap_views().len(),
        fold_path::<B>(
            s.lviews()[index as int],
            auth_path::<B>(s.lviews(), index, (s.height() - s.cap_h()) as nat),
            index,
        ) == s.cap_views()[(index / pow2((s.height() - s.cap_h()) as nat)) as int],
{
    let hc = (s.height() - s.cap_h()) as nat;
    lemma_fold_from::<B>(s.lviews(), 0, index, hc);
    assert(auth_path::<B>(s.lviews(), index, hc) =~= Seq::new(
        hc,
        |t: int| merkle_node::<B>(s.lviews(), (0 + t) as nat, sibling_of(index / pow2(t as nat))),
    ));
    lemma_pow2_adds(hc, s.cap_h());
    lemma_pow2_pos(hc);
    lemma_multiply_divide_lt(index as int, pow2(hc) as int, pow2(s.cap_h()) as int);
}

/// Powers of two multiply by adding exponents.
pub proof fn lemma_pow2_adds(a: nat, b: nat)
    ensures
        pow2(a) * pow2(b) == pow2((a + b) as nat),
    decreases a,
{
    if a > 0 {
        lemma_pow2_adds((a - 1) as nat, b);
        assert((2 * pow2((a - 1) as nat)) * pow2(b) == 2 * (pow2((a - 1) as nat) * pow2(b)))
            by (nonlinear_arith);
    } else {
        assert(pow2(0) == 1);
        assert(1 * pow2(b) == pow2(b)) by (nonlinear_arith);
    }
}

/// A power of two determines its exponent.
pub proof fn lemma_pow2_unique(n: nat, h: nat)
    requires
        n == pow2(h),
    ensures
        forall|g: nat| n == pow2(g) ==> g == h,
{
    assert forall|g: nat| n == pow2(g) implies g == h by {
        if g < h {
            lemma_pow2_increases(g, h);
        } else if g > h {
            lemma_pow2_increases(h, g);
        }
    }
}

} // verus!
