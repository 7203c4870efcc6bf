//! Proof paths: from one leaf to the root, without the rest of the tree.

use crate::error::MerkleError;
use crate::merkle_tree::{Direction, MerkleNode, PathStep};
use crate::utils::crypto;
use crate::utils::crypto::{collision, hash_nodes, hash_pair, lemma_concat_injective, same_bytes};
use crate::utils::encoding::{encode_hex, hex_encoding};
use vstd::prelude::*;

verus! {

/// A path from a leaf to the root. The first node holds the leaf's own
/// digest; each later node holds the sibling met on the way up and the side
/// it is joined on.
#[derive(Debug)]
pub struct MerkleProof {
    pub nodes: Vec<MerkleNode>,
}

impl View for MerkleProof {
    type V = Seq<PathStep>;

    open spec fn view(&self) -> Seq<PathStep> {
        Seq::new(self.nodes@.len(), |i: int| self.nodes@[i]@)
    }
}

/// The digest of the parent reached from `acc` through the sibling `step`.
pub open spec fn join(acc: Seq<u8>, step: PathStep) -> Seq<u8> {
    match step.direction {
        Direction::Right => hash_pair(acc, step.hash),
        Direction::Left => hash_pair(step.hash, acc),
    }
}

/// The digest reached from `acc` by joining the siblings `steps` in order.
pub open spec fn fold_path(acc: Seq<u8>, steps: Seq<PathStep>) -> Seq<u8>
    decreases steps.len(),
{
    if steps.len() == 0 {
        acc
    } else {
        fold_path(join(acc, steps[0]), steps.drop_first())
    }
}

/// The root that the path `path` leads to. The direction of the first node
/// plays no part. It means nothing for an empty path.
pub open spec fn path_root(path: Seq<PathStep>) -> Seq<u8> {
    fold_path(path[0].hash, path.drop_first())
}

impl MerkleProof {
    /// Wraps a path.
    pub fn new(hashes: Vec<MerkleNode>) -> (path: Self)
        ensures
            path.nodes == hashes,
    {
        Self { nodes: hashes }
    }

    /// Recomputes the root from the path alone. Fails with `EmptyProof` on a
    /// path without elements, and on no other.
    pub fn compute_root(&self) -> (result: Result<crypto::Hash, MerkleError>)
        ensures
            match result {
                Ok(root) => self@.len() > 0 && root@ == path_root(self@),
                Err(e) => self@.len() == 0 && e == MerkleError::EmptyProof,
            },
    {
        let count: usize = self.nodes.len();
        if count == 0 {
            return Err(MerkleError::EmptyProof);
        }
        let mut acc: Vec<u8> = self.nodes[0].hash.clone();
        let mut i: usize = 1;
        while i < count
            invariant
                1 <= i <= count,
                count == self.nodes.len(),
                fold_path(acc@, self@.subrange(i as int, count as int)) == path_root(self@),
            decreases count - i,
        {
            let ghost rest = self@.subrange(i as int, count as int);
            assert(rest.drop_first() =~= self@.subrange(i + 1, count as int));
            let node = &self.nodes[i];
            acc = match node.direction {
                Direction::Right => hash_nodes(&acc, &node.hash),
                Direction::Left => hash_nodes(&node.hash, &acc),
            };
            i += 1;
        }
        Ok(acc)
    }

    /// Recomputes the root and writes it as lower-case hexadecimal text.
    pub fn compute_root_hex(&self) -> (result: Result<String, MerkleError>)
        ensures
            match result {
                Ok(text) => self@.len() > 0 && text@ == hex_encoding(path_root(self@)),
                Err(e) => self@.len() == 0 && e == MerkleError::EmptyProof,
            },
    {
        match self.compute_root() {
            Ok(root) => Ok(encode_hex(&root)),
            Err(e) => Err(e),
        }
    }

    /// Tells whether the path leads to `expected_root`. An empty path is an
    /// error, not a mismatch.
    pub fn verify(&self, expected_root: &crypto::Hash) -> (result: Result<bool, MerkleError>)
        ensures
            match result {
                Ok(valid) => self@.len() > 0 && valid == (path_root(self@) == expected_root@),
                Err(e) => self@.len() == 0 && e == MerkleError::EmptyProof,
            },
    {
        match self.compute_root() {
            Ok(root) => Ok(same_bytes(&root, expected_root)),
            Err(e) => Err(e),
        }
    }
}

/// What `sha256` is applied to when `acc` is joined with `step`.
pub open spec fn join_input(acc: Seq<u8>, step: PathStep) -> Seq<u8> {
    match step.direction {
        Direction::Right => acc + step.hash,
        Direction::Left => step.hash + acc,
    }
}

/// The path `path` with the digest at `position` replaced by `forged`.
pub open spec fn tampered(path: Seq<PathStep>, position: int, forged: Seq<u8>) -> Seq<PathStep> {
    path.update(position, PathStep { hash: forged, direction: path[position].direction })
}

/// Joining the same siblings to two different digests gives two different
/// results, unless the pair that is returned is a collision of SHA-256.
proof fn lemma_fold_keeps_difference(acc1: Seq<u8>, acc2: Seq<u8>, steps: Seq<PathStep>) -> (pair:
    (Seq<u8>, Seq<u8>))
    requires
        acc1 != acc2,
    ensures
        fold_path(acc1, steps) != fold_path(acc2, steps) || collision(pair.0, pair.1),
    decreases steps.len(),
{
    if steps.len() == 0 {
        (acc1, acc2)
    } else {
        let input1 = join_input(acc1, steps[0]);
        let input2 = join_input(acc2, steps[0]);
        if input1 == input2 {
            match steps[0].direction {
                Direction::Right => lemma_concat_injective(acc1, steps[0].hash, acc2, steps[0].hash),
                Direction::Left => lemma_concat_injective(steps[0].hash, acc1, steps[0].hash, acc2),
            }
        }
        if join(acc1, steps[0]) == join(acc2, steps[0]) {
            (input1, input2)
        } else {
            lemma_fold_keeps_difference(
                join(acc1, steps[0]),
                join(acc2, steps[0]),
                steps.drop_first(),
            )
        }
    }
}

/// Replacing the digest of one sibling changes what the siblings lead to,
/// unless the pair that is returned is a collision of SHA-256.
proof fn lemma_fold_tampered(acc: Seq<u8>, steps: Seq<PathStep>, position: int, forged: Seq<u8>)
    -> (pair: (Seq<u8>, Seq<u8>))
    requires
        0 <= position < steps.len(),
        forged != steps[position].hash,
    ensures
        fold_path(acc, tampered(steps, position, forged)) != fold_path(acc, steps) || collision(
            pair.0,
            pair.1,
        ),
    decreases steps.len(),
{
    let changed = tampered(steps, position, forged);
    if position == 0 {
        let input1 = join_input(acc, steps[0]);
        let input2 = join_input(acc, changed[0]);
        assert(changed.drop_first() =~= steps.drop_first());
        if input1 == input2 {
            match steps[0].direction {
                Direction::Right => lemma_concat_injective(acc, steps[0].hash, acc, forged),
                Direction::Left => lemma_concat_injective(steps[0].hash, acc, forged, acc),
            }
        }
        if join(acc, steps[0]) == join(acc, changed[0]) {
            (input1, input2)
        } else {
            lemma_fold_keeps_difference(
                join(acc, steps[0]),
                join(acc, changed[0]),
                steps.drop_first(),
            )
        }
    } else {
        assert(changed.drop_first() =~= tampered(steps.drop_first(), position - 1, forged));
        lemma_fold_tampered(join(acc, steps[0]), steps.drop_first(), position - 1, forged)
    }
}

/// Tampering with a path is detected: where the digest of any one node of
/// `path` is replaced by another, the path no longer leads to the same root,
/// unless the pair that is returned is a collision of SHA-256.
pub proof fn lemma_tampering_changes_root(path: Seq<PathStep>, position: int, forged: Seq<u8>)
    -> (pair: (Seq<u8>, Seq<u8>))
    requires
        0 <= position < path.len(),
        forged != path[position].hash,
    ensures
        path_root(tampered(path, position, forged)) != path_root(path) || collision(
            pair.0,
            pair.1,
        ),
{
    let changed = tampered(path, position, forged);
    if position == 0 {
        assert(changed.drop_first() =~= path.drop_first());
        lemma_fold_keeps_difference(forged, path[0].hash, path.drop_first())
    } else {
        assert(changed.drop_first() =~= tampered(path.drop_first(), position - 1, forged));
        lemma_fold_tampered(path[0].hash, path.drop_first(), position - 1, forged)
    }
}

} // verus!
