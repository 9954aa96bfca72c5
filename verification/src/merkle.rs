//! Merkle-inclusion proof verification: recomputing a root from a leaf, a
//! sibling path, and the leaf's index in the tree.

use vstd::prelude::*;

use crate::hashing::keccak_concat;
use crate::hashing::keccak_of;

verus! {

/// The root recomputed bottom-up from `leaf` along the sibling path `proof`:
/// at each level the low bit of `index` picks the hash order (clear: running
/// node first, set: sibling first), and the index is halved for the next
/// level.
pub open spec fn merkle_root_of(leaf: Seq<u8>, proof: Seq<Seq<u8>>, index: nat) -> Seq<u8>
    decreases proof.len(),
{
    if proof.len() == 0 {
        leaf
    } else {
        let combined = if index % 2 == 0 {
            keccak_of(leaf + proof[0])
        } else {
            keccak_of(proof[0] + leaf)
        };
        merkle_root_of(combined, proof.skip(1), index / 2)
    }
}

/// Bit `i` of `index`, as the hash order it selects: `false` means the
/// running node is hashed before the sibling at level `i`, `true` after it.
pub open spec fn bit_of(index: nat, i: nat) -> bool
    decreases i,
{
    if i == 0 {
        index % 2 == 1
    } else {
        bit_of(index / 2, (i - 1) as nat)
    }
}

/// The hash orders an index selects for the first `n` levels, bottom level
/// first.
pub open spec fn order_bits(index: nat, n: nat) -> Seq<bool> {
    Seq::new(n, |i: int| bit_of(index, i as nat))
}

/// The root recomputed with an explicit hash order per level; `orders[i]`
/// governs level `i`, with the same reading as `bit_of`.
pub open spec fn root_with_orders(leaf: Seq<u8>, proof: Seq<Seq<u8>>, orders: Seq<bool>) -> Seq<u8>
    decreases proof.len(),
{
    if proof.len() == 0 {
        leaf
    } else {
        let combined = if !orders[0] {
            keccak_of(leaf + proof[0])
        } else {
            keccak_of(proof[0] + leaf)
        };
        root_with_orders(combined, proof.skip(1), orders.skip(1))
    }
}

/// The index fully determines the hash order: the recomputed root is the one
/// obtained by taking the order at level `i` from bit `i` of the index.
pub proof fn lemma_root_orders(leaf: Seq<u8>, proof: Seq<Seq<u8>>, index: nat)
    ensures
        merkle_root_of(leaf, proof, index) == root_with_orders(
            leaf,
            proof,
            order_bits(index, proof.len()),
        ),
    decreases proof.len(),
{
    if proof.len() == 0 {
    } else {
        let orders = order_bits(index, proof.len());
        assert(orders[0] == bit_of(index, 0));
        assert forall|j: int| 0 <= j < proof.len() - 1 implies orders.skip(1)[j] == order_bits(
            index / 2,
            (proof.len() - 1) as nat,
        )[j] by {
            assert(orders.skip(1)[j] == bit_of(index, (j + 1) as nat));
            assert(bit_of(index, (j + 1) as nat) == bit_of(index / 2, j as nat));
        }
        assert(orders.skip(1) =~= order_bits(index / 2, (proof.len() - 1) as nat));
        let combined = if index % 2 == 0 {
            keccak_of(leaf + proof[0])
        } else {
            keccak_of(proof[0] + leaf)
        };
        lemma_root_orders(combined, proof.skip(1), index / 2);
    }
}

/// `index` with bit `i` flipped and every other bit kept.
pub open spec fn flip_bit(index: nat, i: nat) -> nat
    decreases i,
{
    if i == 0 {
        if index % 2 == 0 {
            index + 1
        } else {
            (index - 1) as nat
        }
    } else {
        2 * flip_bit(index / 2, (i - 1) as nat) + index % 2
    }
}

/// Flipping bit `i` leaves every other bit unchanged.
pub proof fn lemma_flip_bit_keeps_others(index: nat, i: nat, j: nat)
    requires
        j != i,
    ensures
        bit_of(flip_bit(index, i), j) == bit_of(index, j),
    decreases i + j,
{
    if i == 0 {
        if index % 2 == 0 {
            assert((index + 1) % 2 == 1);
            assert((index + 1) / 2 == index / 2);
        } else {
            assert(((index - 1) as nat) % 2 == 0);
            assert(((index - 1) as nat) / 2 == index / 2);
        }
    } else {
        let f = flip_bit(index / 2, (i - 1) as nat);
        let r = index % 2;
        assert((2 * f + r) % 2 == r && (2 * f + r) / 2 == f) by (nonlinear_arith)
            requires
                r < 2,
        ;
        if j == 0 {
        } else {
            lemma_flip_bit_keeps_others(index / 2, (i - 1) as nat, (j - 1) as nat);
        }
    }
}

/// Flipping bit `i` negates it.
pub proof fn lemma_flip_bit_flips(index: nat, i: nat)
    ensures
        bit_of(flip_bit(index, i), i) == !bit_of(index, i),
    decreases i,
{
    if i == 0 {
        if index % 2 == 0 {
            assert((index + 1) % 2 == 1);
        } else {
            assert(((index - 1) as nat) % 2 == 0);
        }
    } else {
        let f = flip_bit(index / 2, (i - 1) as nat);
        let r = index % 2;
        assert((2 * f + r) / 2 == f) by (nonlinear_arith)
            requires
                r < 2,
        ;
        lemma_flip_bit_flips(index / 2, (i - 1) as nat);
    }
}

/// Flipping bit `i` of the index swaps the hash order at level `i` and at no
/// other level: the order sequence of the flipped index is the original one
/// with exactly position `i` negated.
pub proof fn lemma_flip_bit_swaps_one_level(index: nat, i: nat, n: nat)
    requires
        i < n,
    ensures
        order_bits(flip_bit(index, i), n) == order_bits(index, n).update(
            i as int,
            !bit_of(index, i),
        ),
{
    let flipped = order_bits(flip_bit(index, i), n);
    let expected = order_bits(index, n).update(i as int, !bit_of(index, i));
    assert forall|j: int| 0 <= j < n implies flipped[j] == expected[j] by {
        if j == i {
            lemma_flip_bit_flips(index, i);
        } else {
            lemma_flip_bit_keeps_others(index, i, j as nat);
        }
    }
    assert(flipped =~= expected);
}

/// The root under an index with bit `i` flipped is the root recomputed with
/// the original hash orders at every level but `i`, and the opposite order
/// there.
pub proof fn lemma_flip_bit_root(leaf: Seq<u8>, proof: Seq<Seq<u8>>, index: nat, i: nat)
    requires
        i < proof.len(),
    ensures
        merkle_root_of(leaf, proof, flip_bit(index, i)) == root_with_orders(
            leaf,
            proof,
            order_bits(index, proof.len()).update(i as int, !bit_of(index, i)),
        ),
{
    lemma_root_orders(leaf, proof, flip_bit(index, i));
    lemma_flip_bit_swaps_one_level(index, i, proof.len());
}

/// Recomputing a root is deterministic: two results for the same leaf, proof
/// and index hold the same bytes.
pub proof fn lemma_recompute_root_deterministic(
    r1: [u8; 32],
    r2: [u8; 32],
    leaf: Seq<u8>,
    proof: Seq<Seq<u8>>,
    index: nat,
)
    requires
        r1@ == merkle_root_of(leaf, proof, index),
        r2@ == merkle_root_of(leaf, proof, index),
    ensures
        r1@ == r2@,
{
}

/// Walk the sibling path bottom-up, hashing the running node with each
/// sibling in the order bit `i` of `index` selects at level `i`.
pub fn recompute_root(leaf: [u8; 32], proof: &[[u8; 32]], index: u32) -> (r: [u8; 32])
    ensures
        r@ == merkle_root_of(leaf@, proof.deep_view(), index as nat),
{
    let ghost proofs = proof.deep_view();
    proof {
        assert(proofs.skip(0) =~= proofs);
    }
    let mut cur = leaf;
    let mut idx = index;
    let mut i: usize = 0;
    while i < proof.len()
        invariant
            i <= proof.len(),
            proofs == proof.deep_view(),
            merkle_root_of(leaf@, proofs, index as nat) == merkle_root_of(
                cur@,
                proofs.skip(i as int),
                idx as nat,
            ),
        decreases proof.len() - i,
    {
        let sibling = &proof[i];
        proof {
            assert(proofs.skip(i as int)[0] == proofs[i as int]);
            assert(proofs[i as int] == proof@[i as int].deep_view());
            assert(proof@[i as int].deep_view() =~= sibling@);
            assert(proofs.skip(i as int).skip(1) =~= proofs.skip(i + 1));
        }
        if idx % 2 == 0 {
            cur = keccak_concat(cur.as_slice(), sibling.as_slice());
        } else {
            cur = keccak_concat(sibling.as_slice(), cur.as_slice());
        }
        idx = idx / 2;
        i += 1;
    }
    proof {
        assert(proofs.skip(proof.len() as int) =~= Seq::<Seq<u8>>::empty());
    }
    cur
}

} // verus!
