//! Merkle proofs over Keccak-256, with each pair of siblings hashed in
//! ascending byte order, so that a proof need not say on which side a
//! sibling stands.
use vstd::prelude::*;

use crate::accounts::keys_equal;
use crate::external::{hashv_pair, keccak_hashv};

verus! {

/// Lexicographic order on byte strings of equal length: `a` is no greater
/// than `b` when they are equal or when, at the first position where they
/// differ, `a` holds the smaller byte.
pub open spec fn lex_le(a: Seq<u8>, b: Seq<u8>) -> bool {
    ||| a == b
    ||| exists|i: int|
        #![trigger a[i], b[i]]
        0 <= i < a.len() && i < b.len() && a[i] < b[i] && forall|j: int|
            0 <= j < i ==> a[j] == b[j]
}

/// The hash of a node from the hash computed so far and the next sibling,
/// the smaller of the two hashed first.
pub open spec fn hash_step(computed: Seq<u8>, element: Seq<u8>) -> Seq<u8> {
    if lex_le(computed, element) {
        keccak_hashv(seq![computed, element])
    } else {
        keccak_hashv(seq![element, computed])
    }
}

/// The root that a leaf and its proof (siblings from the bottom up) lead to.
pub open spec fn merkle_root(leaf: Seq<u8>, proof: Seq<Seq<u8>>) -> Seq<u8>
    decreases proof.len(),
{
    if proof.len() == 0 {
        leaf
    } else {
        hash_step(merkle_root(leaf, proof.drop_last()), proof.last())
    }
}

/// A proof with one more sibling adds exactly one level: the root so far
/// and the new sibling are hashed together, the smaller first.
pub proof fn lemma_merkle_root_one_more_level(leaf: Seq<u8>, proof: Seq<Seq<u8>>, sibling: Seq<u8>)
    ensures
        ({
            let below = merkle_root(leaf, proof);
            merkle_root(leaf, proof.push(sibling)) == if lex_le(below, sibling) {
                keccak_hashv(seq![below, sibling])
            } else {
                keccak_hashv(seq![sibling, below])
            }
        }),
{
    assert(proof.push(sibling).drop_last() =~= proof);
}

/// An empty proof leads to the leaf itself, and a proof split in two leads
/// from the leaf through the first part to the node from which the second
/// part leads on: `merkle_root(leaf, p1 + p2) == merkle_root(merkle_root(leaf, p1), p2)`.
pub proof fn lemma_merkle_root_composes(leaf: Seq<u8>, p1: Seq<Seq<u8>>, p2: Seq<Seq<u8>>)
    ensures
        merkle_root(leaf, Seq::empty()) == leaf,
        merkle_root(leaf, p1 + p2) == merkle_root(merkle_root(leaf, p1), p2),
    decreases p2.len(),
{
    if p2.len() == 0 {
        assert(p1 + p2 =~= p1);
    } else {
        lemma_merkle_root_composes(leaf, p1, p2.drop_last());
        assert((p1 + p2).drop_last() =~= p1 + p2.drop_last());
        assert((p1 + p2).last() == p2.last());
    }
}

/// Two equal-length byte strings that differ have a first position where
/// they differ, at or after `k` when they agree before `k`.
proof fn lemma_first_difference(a: Seq<u8>, b: Seq<u8>, k: int) -> (i: int)
    requires
        a.len() == b.len(),
        a != b,
        0 <= k <= a.len(),
        forall|j: int| 0 <= j < k ==> a[j] == b[j],
    ensures
        k <= i < a.len(),
        a[i] != b[i],
        forall|j: int| 0 <= j < i ==> a[j] == b[j],
    decreases a.len() - k,
{
    if k == a.len() {
        assert(a =~= b);
        k
    } else if a[k] != b[k] {
        k
    } else {
        lemma_first_difference(a, b, k + 1)
    }
}

/// On byte strings of equal length, `lex_le` is total and antisymmetric:
/// exactly one of `lex_le(a, b)` and `lex_le(b, a)` holds unless `a == b`.
pub proof fn lemma_lex_le_total(a: Seq<u8>, b: Seq<u8>)
    requires
        a.len() == b.len(),
    ensures
        lex_le(a, b) || lex_le(b, a),
        lex_le(a, b) && lex_le(b, a) ==> a == b,
{
    if a != b {
        let i = lemma_first_difference(a, b, 0);
        if a[i] < b[i] {
            assert(lex_le(a, b));
        } else {
            assert(lex_le(b, a));
        }
        if lex_le(a, b) && lex_le(b, a) {
            let k1 = choose|k: int|
                #![trigger a[k], b[k]]
                0 <= k < a.len() && k < b.len() && a[k] < b[k] && forall|j: int|
                    0 <= j < k ==> a[j] == b[j];
            let k2 = choose|k: int|
                #![trigger b[k], a[k]]
                0 <= k < b.len() && k < a.len() && b[k] < a[k] && forall|j: int|
                    0 <= j < k ==> b[j] == a[j];
            if k1 < k2 {
                assert(b[k1] == a[k1]);
            } else if k2 < k1 {
                assert(a[k2] == b[k2]);
            }
        }
    }
}

/// The hash of two siblings does not depend on their order: a node's hash
/// is the same whichever child the proof starts from.
pub proof fn lemma_hash_step_symmetric(a: Seq<u8>, b: Seq<u8>)
    requires
        a.len() == b.len(),
    ensures
        hash_step(a, b) == hash_step(b, a),
{
    lemma_lex_le_total(a, b);
}

/// In a tree of two leaves, each leaf with the other as its one-element
/// proof leads to the same root.
pub proof fn lemma_sibling_proofs_agree(x: Seq<u8>, y: Seq<u8>)
    requires
        x.len() == y.len(),
    ensures
        merkle_root(x, seq![y]) == merkle_root(y, seq![x]),
{
    lemma_hash_step_symmetric(x, y);
    assert(seq![y].drop_last() =~= Seq::<Seq<u8>>::empty());
    assert(seq![x].drop_last() =~= Seq::<Seq<u8>>::empty());
    assert(merkle_root(x, seq![y].drop_last()) == x);
    assert(merkle_root(y, seq![x].drop_last()) == y);
    assert(merkle_root(x, seq![y]) == hash_step(x, y));
    assert(merkle_root(y, seq![x]) == hash_step(y, x));
}

/// Whether `a` is no greater than `b` in lexicographic order.
pub fn bytes_le(a: &[u8; 32], b: &[u8; 32]) -> (r: bool)
    ensures
        r == lex_le(a@, b@),
{
    let mut i: usize = 0;
    while i < 32
        invariant
            0 <= i <= 32,
            a@.len() == 32,
            b@.len() == 32,
            forall|j: int| 0 <= j < i ==> a@[j] == b@[j],
        decreases 32 - i,
    {
        if a[i] != b[i] {
            assert(a@ != b@) by {
                assert(a@[i as int] != b@[i as int]);
            }
            if a[i] < b[i] {
                assert(a@[i as int] < b@[i as int]);
                return true;
            } else {
                assert(!lex_le(a@, b@)) by {
                    if exists|k: int|
                        #![trigger a@[k], b@[k]]
                        0 <= k < a@.len() && k < b@.len() && a@[k] < b@[k] && forall|j: int|
                            0 <= j < k ==> a@[j] == b@[j] {
                        let k = choose|k: int|
                            #![trigger a@[k], b@[k]]
                            0 <= k < a@.len() && k < b@.len() && a@[k] < b@[k] && forall|j: int|
                                0 <= j < k ==> a@[j] == b@[j];
                        if k > i {
                            assert(a@[i as int] == b@[i as int]);
                        }
                    }
                }
                return false;
            }
        }
        i = i + 1;
    }
    assert(a@ =~= b@);
    true
}

/// Whether `leaf`, hashed up with the siblings in `proof`, gives `root`.
pub fn verify(proof: Vec<[u8; 32]>, root: [u8; 32], leaf: [u8; 32]) -> (r: bool)
    ensures
        r == (merkle_root(leaf@, proof.deep_view()) == root@),
{
    let mut computed_hash: [u8; 32] = leaf;
    let n = proof.len();
    let mut i: usize = 0;
    while i < n
        invariant
            0 <= i <= n,
            n == proof@.len(),
            proof.deep_view().len() == n,
            computed_hash@ == merkle_root(leaf@, proof.deep_view().take(i as int)),
        decreases n - i,
    {
        let proof_element = proof[i];
        assert(proof.deep_view().take(i + 1).drop_last() =~= proof.deep_view().take(i as int));
        assert(proof.deep_view()[i as int] == proof_element@);
        if bytes_le(&computed_hash, &proof_element) {
            computed_hash = hashv_pair(&computed_hash, &proof_element);
        } else {
            computed_hash = hashv_pair(&proof_element, &computed_hash);
        }
        i = i + 1;
    }
    assert(proof.deep_view().take(n as int) =~= proof.deep_view());
    keys_equal(&computed_hash, &root)
}

} // verus!
