//! The hash tree over a batch of leaf digests.
//!
//! All nodes of a tree live in one flat vector, level after level: the leaves
//! in input order, then the digests of their pairs, and so on up to the root.
//! A node without a right neighbour is paired with itself.

use crate::error::MerkleError;
use crate::merkle_proof::{fold_path, join, path_root, MerkleProof};
use crate::utils::crypto;
use crate::utils::crypto::{
    collision, hash_nodes, hash_pair, lemma_concat_injective, same_bytes, DIGEST_LEN,
};
use crate::utils::encoding::{encode_hex, hex_encoding};
use vstd::prelude::*;

verus! {

/// The side on which a sibling digest is joined to the digest accumulated so
/// far: `Left` puts the sibling in front, `Right` puts it behind.
#[derive(Clone, Copy, Debug, PartialEq, Eq, Structural)]
pub enum Direction {
    Left,
    Right,
}

/// One element of a proof path: a digest and the side it is joined on.
#[derive(Debug)]
pub struct MerkleNode {
    pub hash: crypto::Hash,
    pub direction: Direction,
}

/// What a `MerkleNode` stands for in specifications.
pub struct PathStep {
    pub hash: Seq<u8>,
    pub direction: Direction,
}

impl View for MerkleNode {
    type V = PathStep;

    open spec fn view(&self) -> PathStep {
        PathStep { hash: self.hash@, direction: self.direction }
    }
}

/// The byte strings held by a vector of nodes.
pub open spec fn digests_of(hashes: Seq<crypto::Hash>) -> Seq<Seq<u8>> {
    Seq::new(hashes.len(), |i: int| hashes[i]@)
}

/// The direction of the node at position `index` of its level: a node at an
/// even position is the left half of its pair, so its sibling goes to the
/// right.
pub open spec fn direction_at(index: int) -> Direction {
    if index % 2 == 0 {
        Direction::Right
    } else {
        Direction::Left
    }
}

/// The position of the node that position `index` is paired with, in a level
/// of `width` nodes. The last node of a level of odd width is paired with
/// itself.
pub open spec fn sibling_at(width: int, index: int) -> int {
    if index % 2 == 1 {
        index - 1
    } else if index + 1 < width {
        index + 1
    } else {
        index
    }
}

/// The level above `level`: one digest for each pair of neighbours.
pub open spec fn parent_level(level: Seq<Seq<u8>>) -> Seq<Seq<u8>> {
    Seq::new(
        ((level.len() + 1) / 2) as nat,
        |i: int| hash_pair(level[2 * i], level[sibling_at(level.len() as int, 2 * i)]),
    )
}

/// The root of the tree over `leaves`. It means nothing for an empty
/// sequence.
pub open spec fn tree_root(leaves: Seq<Seq<u8>>) -> Seq<u8>
    decreases leaves.len(),
{
    if leaves.len() <= 1 {
        leaves[0]
    } else {
        tree_root(parent_level(leaves))
    }
}

/// All nodes of the tree over `leaves`, level after level, root last.
pub open spec fn tree_nodes(leaves: Seq<Seq<u8>>) -> Seq<Seq<u8>>
    decreases leaves.len(),
{
    if leaves.len() <= 1 {
        leaves
    } else {
        leaves + tree_nodes(parent_level(leaves))
    }
}

/// Where each level of the tree over `leaves` starts in `tree_nodes`, given
/// that the leaves start at `base`. The level that holds the root alone has
/// no entry.
pub open spec fn level_offsets(leaves: Seq<Seq<u8>>, base: int) -> Seq<int>
    decreases leaves.len(),
{
    if leaves.len() <= 1 {
        Seq::empty()
    } else {
        seq![base] + level_offsets(parent_level(leaves), base + leaves.len())
    }
}

/// Every node above the leaves has the length of a SHA-256 digest. This
/// holds of every tree that `MerkleTree::from_leaves` builds.
pub open spec fn digests_sized(leaves: Seq<Seq<u8>>) -> bool
    decreases leaves.len(),
{
    leaves.len() > 1 ==> {
        &&& forall|i: int|
            0 <= i < parent_level(leaves).len() ==> (#[trigger] parent_level(leaves)[i]).len()
                == DIGEST_LEN
        &&& digests_sized(parent_level(leaves))
    }
}

/// The offsets held by a vector, as mathematical integers.
pub open spec fn offsets_of(indices: Seq<usize>) -> Seq<int> {
    Seq::new(indices.len(), |i: int| indices[i] as int)
}

/// The siblings met on the way from position `index` of `level` up to the
/// root, lowest first, each with the direction of the node it is joined to.
pub open spec fn sibling_path(level: Seq<Seq<u8>>, index: int) -> Seq<PathStep>
    decreases level.len(),
{
    if level.len() <= 1 {
        Seq::empty()
    } else {
        seq![
            PathStep {
                hash: level[sibling_at(level.len() as int, index)],
                direction: direction_at(index),
            },
        ] + sibling_path(parent_level(level), index / 2)
    }
}

/// The proof path of the leaf at position `index`: the leaf itself, then its
/// siblings up to the root.
pub open spec fn proof_path(leaves: Seq<Seq<u8>>, index: int) -> Seq<PathStep> {
    seq![PathStep { hash: leaves[index], direction: direction_at(index) }] + sibling_path(
        leaves,
        index,
    )
}

/// Position `index` is the first one in `items` that holds `digest`.
pub open spec fn is_first_at(items: Seq<Seq<u8>>, digest: Seq<u8>, index: int) -> bool {
    &&& 0 <= index < items.len()
    &&& items[index] == digest
    &&& forall|j: int| 0 <= j < index ==> items[j] != digest
}

/// The first position in `items` that holds `digest`. It means nothing where
/// `items` does not contain `digest`.
pub open spec fn first_index(items: Seq<Seq<u8>>, digest: Seq<u8>) -> int {
    choose|index: int| is_first_at(items, digest, index)
}

/// The nodes of a proof path, as they stand in specifications.
pub open spec fn steps_of(nodes: Seq<MerkleNode>) -> Seq<PathStep> {
    Seq::new(nodes.len(), |i: int| nodes[i]@)
}

/// A hash tree. Its view is the sequence of leaves it was built from.
pub struct MerkleTree {
    hashes: Vec<crypto::Hash>,
    levels_indices: Vec<usize>,
    leaf_count: usize,
}

impl View for MerkleTree {
    type V = Seq<Seq<u8>>;

    closed spec fn view(&self) -> Seq<Seq<u8>> {
        digests_of(self.hashes@).subrange(0, self.leaf_count as int)
    }
}

impl MerkleTree {
    #[verifier::type_invariant]
    spec fn well_formed(&self) -> bool {
        &&& self.leaf_count <= self.hashes.len()
        &&& digests_of(self.hashes@) == tree_nodes(self@)
        &&& digests_sized(self@)
        &&& offsets_of(self.levels_indices@) == if self.leaf_count == 0 {
            seq![0int]
        } else {
            level_offsets(self@, 0)
        }
    }

    /// Builds the tree over `leaves`, which keep their order.
    pub fn from_leaves(leaves: Vec<crypto::Hash>) -> (tree: Self)
        ensures
            tree@ == digests_of(leaves@),
            digests_sized(tree@),
    {
        let ghost all = digests_of(leaves@);
        let leaf_count: usize = leaves.len();
        let mut hashes = leaves;
        let mut levels_indices: Vec<usize> = Vec::new();
        if leaf_count == 0 {
            levels_indices.push(0);
            assert(digests_of(hashes@).subrange(0, 0) =~= all);
            assert(offsets_of(levels_indices@) =~= seq![0int]);
            return MerkleTree { hashes, levels_indices, leaf_count };
        }
        let mut start: usize = 0;
        let mut width: usize = leaf_count;
        while width > 1
            invariant
                width >= 1,
                start + width == hashes.len(),
                leaf_count <= hashes.len(),
                digests_of(hashes@).subrange(0, leaf_count as int) == all,
                tree_nodes(all) == digests_of(hashes@).subrange(0, start as int) + tree_nodes(
                    digests_of(hashes@).subrange(start as int, start + width),
                ),
                level_offsets(all, 0) == offsets_of(levels_indices@) + level_offsets(
                    digests_of(hashes@).subrange(start as int, start + width),
                    start as int,
                ),
                digests_sized(digests_of(hashes@).subrange(start as int, start + width))
                    ==> digests_sized(all),
            decreases width,
        {
            let ghost before = digests_of(hashes@);
            let ghost level = before.subrange(start as int, start + width);
            levels_indices.push(start);
            let parents: usize = width / 2 + width % 2;
            let mut p: usize = 0;
            while p < parents
                invariant
                    width > 1,
                    parents == (width + 1) / 2,
                    p <= parents,
                    start + width == before.len(),
                    hashes.len() == before.len() + p,
                    digests_of(hashes@).subrange(0, before.len() as int) == before,
                    level == before.subrange(start as int, start + width),
                    digests_of(hashes@).subrange(before.len() as int, before.len() + p)
                        == parent_level(level).subrange(0, p as int),
                    forall|q: int| 0 <= q < p ==> parent_level(level)[q].len() == DIGEST_LEN,
                decreases parents - p,
            {
                let left: usize = 2 * p;
                let right: usize = if left + 1 < width {
                    left + 1
                } else {
                    left
                };
                let parent = hash_nodes(&hashes[start + left], &hashes[start + right]);
                hashes.push(parent);
                p += 1;
            }
            proof {
                let after = digests_of(hashes@);
                let above = parent_level(level);
                assert(after.subrange(start + width, start + width + parents) == above);
            }
            start = start + width;
            width = parents;
        }
        proof {
            let nodes = digests_of(hashes@);
            let top = nodes.subrange(start as int, start + width);
            assert(nodes =~= nodes.subrange(0, start as int) + top);
        }
        MerkleTree { hashes, levels_indices, leaf_count }
    }

    /// The nodes of the tree, level after level, root last.
    pub fn hashes(&self) -> (nodes: &Vec<crypto::Hash>)
        ensures
            digests_of(nodes@) == tree_nodes(self@),
            digests_sized(self@),
    {
        proof {
            use_type_invariant(self);
        }
        &self.hashes
    }

    /// Where each level starts among the nodes of the tree, lowest level
    /// first. The level that holds the root alone has no entry; the tree
    /// without leaves has the one entry `0`.
    pub fn levels_indices(&self) -> (indices: &Vec<usize>)
        ensures
            offsets_of(indices@) == if self@.len() == 0 {
                seq![0int]
            } else {
                level_offsets(self@, 0)
            },
    {
        proof {
            use_type_invariant(self);
        }
        &self.levels_indices
    }

    /// The root of the tree, or `None` for the tree without leaves.
    pub fn root(&self) -> (root: Option<&crypto::Hash>)
        ensures
            match root {
                Some(digest) => self@.len() > 0 && digest@ == tree_root(self@),
                None => self@.len() == 0,
            },
    {
        proof {
            use_type_invariant(self);
            lemma_root_is_last_node(self@);
        }
        let count: usize = self.hashes.len();
        if count == 0 {
            None
        } else {
            Some(&self.hashes[count - 1])
        }
    }

    /// The root of the tree as lower-case hexadecimal text, or `None` for the
    /// tree without leaves.
    pub fn root_hex(&self) -> (text: Option<String>)
        ensures
            match text {
                Some(t) => self@.len() > 0 && t@ == hex_encoding(tree_root(self@)),
                None => self@.len() == 0,
            },
    {
        match self.root() {
            Some(r) => Some(encode_hex(r)),
            None => None,
        }
    }

    /// The direction of a node at position `index` of its level.
    pub fn get_node_direction(&self, index: usize) -> (direction: Direction)
        ensures
            direction == direction_at(index as int),
    {
        if index % 2 == 0 {
            Direction::Right
        } else {
            Direction::Left
        }
    }

    /// The first position among all nodes of the tree that holds `hash`.
    pub fn get_hash_index(&self, hash: &crypto::Hash) -> (found: Option<usize>)
        ensures
            match found {
                Some(index) => is_first_at(tree_nodes(self@), hash@, index as int),
                None => !tree_nodes(self@).contains(hash@),
            },
    {
        proof {
            use_type_invariant(self);
        }
        let ghost nodes = digests_of(self.hashes@);
        let mut i: usize = 0;
        while i < self.hashes.len()
            invariant
                i <= self.hashes.len(),
                nodes == digests_of(self.hashes@),
                nodes == tree_nodes(self@),
                forall|j: int| 0 <= j < i ==> nodes[j] != hash@,
            decreases self.hashes.len() - i,
        {
            if same_bytes(&self.hashes[i], hash) {
                return Some(i);
            }
            i += 1;
        }
        None
    }

    /// Builds the proof path for the first leaf that holds `hash`.
    ///
    /// Fails with `EmptyTree` on the tree without leaves, and with
    /// `LeafNotFound` where no leaf holds `hash`. The path that is returned
    /// leads to the root of this tree.
    pub fn proof_for(&self, hash: crypto::Hash) -> (result: Result<MerkleProof, MerkleError>)
        ensures
            match result {
                Ok(path) => {
                    &&& self@.contains(hash@)
                    &&& path@ == proof_path(self@, first_index(self@, hash@))
                    &&& path_root(path@) == tree_root(self@)
                },
                Err(e) => if self@.len() == 0 {
                    e == MerkleError::EmptyTree
                } else {
                    e == MerkleError::LeafNotFound && !self@.contains(hash@)
                },
            },
    {
        proof {
            use_type_invariant(self);
            lemma_root_is_last_node(self@);
        }
        let ghost leaves = self@;
        let ghost nodes = digests_of(self.hashes@);
        if self.hashes.len() == 0 {
            return Err(MerkleError::EmptyTree);
        }
        let first: usize = match self.get_hash_index(&hash) {
            Some(i) => {
                if i < self.leaf_count {
                    i
                } else {
                    return Err(MerkleError::LeafNotFound);
                }
            },
            None => {
                return Err(MerkleError::LeafNotFound);
            },
        };
        assert(is_first_at(leaves, hash@, first as int));
        let mut path: Vec<MerkleNode> = Vec::new();
        path.push(MerkleNode { hash, direction: self.get_node_direction(first) });
        let mut index: usize = first;
        let mut width: usize = self.leaf_count;
        let mut k: usize = 0;
        let ghost offsets = offsets_of(self.levels_indices@);
        let ghost mut level = leaves;
        let ghost mut start: int = 0;
        while k < self.levels_indices.len()
            invariant
                nodes == digests_of(self.hashes@),
                offsets == offsets_of(self.levels_indices@),
                k <= self.levels_indices.len(),
                index < width,
                width == level.len(),
                0 <= start <= nodes.len(),
                nodes.subrange(start, nodes.len() as int) == tree_nodes(level),
                offsets.subrange(k as int, offsets.len() as int) == level_offsets(level, start),
                steps_of(path@) + sibling_path(level, index as int) == proof_path(
                    leaves,
                    first as int,
                ),
            decreases self.levels_indices.len() - k,
        {
            let ghost above = parent_level(level);
            proof {
                lemma_level_in_nodes(nodes, offsets, k as int, level, start);
            }
            let offset: usize = self.levels_indices[k];
            let direction = self.get_node_direction(index);
            let sibling: usize = if index % 2 == 1 {
                index - 1
            } else if index + 1 < width {
                index + 1
            } else {
                index
            };
            assert(offset + sibling < self.hashes.len());
            let step = MerkleNode { hash: self.hashes[offset + sibling].clone(), direction };
            path.push(step);
            proof {
                level = above;
                start = start + width;
            }
            index = index / 2;
            width = width / 2 + width % 2;
            k += 1;
        }
        proof {
            lemma_proof_recomputes_root(leaves, first as int);
        }
        Ok(MerkleProof::new(path))
    }
}

/// The nodes of a tree start with its leaves, and the root of a tree with at
/// least one leaf is its last node.
pub proof fn lemma_root_is_last_node(leaves: Seq<Seq<u8>>)
    ensures
        tree_nodes(leaves).len() >= leaves.len(),
        tree_nodes(leaves).subrange(0, leaves.len() as int) == leaves,
        leaves.len() > 0 ==> tree_nodes(leaves).last() == tree_root(leaves),
    decreases leaves.len(),
{
    if leaves.len() > 1 {
        lemma_root_is_last_node(parent_level(leaves));
    }
}

/// Each level is half as wide as the level below it, rounded up; its last
/// node is the digest of a node paired with itself where the level below is
/// of odd width. The lowest level of a tree with more than one leaf starts at
/// the front of the nodes.
pub proof fn lemma_levels_halve(level: Seq<Seq<u8>>)
    ensures
        parent_level(level).len() == (level.len() + 1) / 2,
        level.len() % 2 == 1 ==> parent_level(level).last() == hash_pair(
            level.last(),
            level.last(),
        ),
        level.len() > 1 ==> level_offsets(level, 0).len() > 0 && level_offsets(level, 0)[0] == 0,
{
}

/// A tree is linear in its leaves: over `n` leaves it has fewer than `3 * n`
/// nodes, so fewer than `2 * n` digests are computed to build it.
pub proof fn lemma_tree_size_is_linear(leaves: Seq<Seq<u8>>)
    ensures
        leaves.len() > 0 ==> tree_nodes(leaves).len() <= 3 * leaves.len() - 2,
        leaves.len() == 0 ==> tree_nodes(leaves).len() == 0,
    decreases leaves.len(),
{
    if leaves.len() > 1 {
        lemma_tree_size_is_linear(parent_level(leaves));
    }
}

/// Where the flat sequence `nodes` holds, from `start` on, the tree over
/// `level`, and `offsets` holds from position `k` on the starts of its levels:
/// `level` itself stands at `start`, and what follows it is the tree over the
/// level above.
proof fn lemma_level_in_nodes(
    nodes: Seq<Seq<u8>>,
    offsets: Seq<int>,
    k: int,
    level: Seq<Seq<u8>>,
    start: int,
)
    requires
        0 <= k < offsets.len(),
        0 <= start <= nodes.len(),
        nodes.subrange(start, nodes.len() as int) == tree_nodes(level),
        offsets.subrange(k, offsets.len() as int) == level_offsets(level, start),
    ensures
        level.len() > 1,
        offsets[k] == start,
        start + level.len() <= nodes.len(),
        forall|i: int| 0 <= i < level.len() ==> nodes[start + i] == level[i],
        nodes.subrange(start + level.len(), nodes.len() as int) == tree_nodes(
            parent_level(level),
        ),
        offsets.subrange(k + 1, offsets.len() as int) == level_offsets(
            parent_level(level),
            start + level.len(),
        ),
{
    let above = parent_level(level);
    let tail = nodes.subrange(start, nodes.len() as int);
    let remaining = offsets.subrange(k, offsets.len() as int);
    assert(remaining[0] == offsets[k]);
    assert(tail.len() == nodes.len() - start);
    assert forall|i: int| 0 <= i < level.len() implies nodes[start + i] == level[i] by {
        assert(tail[i] == nodes[start + i]);
    }
    assert(nodes.subrange(start + level.len(), nodes.len() as int) =~= tree_nodes(above)) by {
        assert forall|i: int| 0 <= i < tree_nodes(above).len() implies nodes[start + level.len()
            + i] == tree_nodes(above)[i] by {
            assert(tail[level.len() + i] == nodes[start + level.len() + i]);
        }
    }
    assert(remaining.subrange(1, remaining.len() as int) =~= level_offsets(
        above,
        start + level.len(),
    ));
}

/// Joining a node with its siblings, level by level, ends at the root.
pub proof fn lemma_siblings_lead_to_root(level: Seq<Seq<u8>>, index: int)
    requires
        0 <= index < level.len(),
    ensures
        fold_path(level[index], sibling_path(level, index)) == tree_root(level),
    decreases level.len(),
{
    if level.len() > 1 {
        let above = parent_level(level);
        let path = sibling_path(level, index);
        let rest = sibling_path(above, index / 2);
        assert(path.drop_first() =~= rest);
        assert(join(level[index], path[0]) == above[index / 2]);
        lemma_siblings_lead_to_root(above, index / 2);
    }
}

/// The proof path of every leaf leads to the root of the tree: for each
/// position `index` among `leaves`, the root recomputed from
/// `proof_path(leaves, index)` is `tree_root(leaves)`.
pub proof fn lemma_proof_recomputes_root(leaves: Seq<Seq<u8>>, index: int)
    requires
        0 <= index < leaves.len(),
    ensures
        path_root(proof_path(leaves, index)) == tree_root(leaves),
{
    assert(proof_path(leaves, index).drop_first() =~= sibling_path(leaves, index));
    lemma_siblings_lead_to_root(leaves, index);
}

/// What `sha256` is applied to for the parent at position `i` of the level
/// above `level`.
pub open spec fn pair_input(level: Seq<Seq<u8>>, i: int) -> Seq<u8> {
    level[2 * i] + level[sibling_at(level.len() as int, 2 * i)]
}

/// The root binds the leaves, in content and in order: two batches of equally
/// many leaves, equally long at each position, whose trees have the same root
/// are the same batch, unless the pair that is returned is a collision of
/// SHA-256. Both trees are taken to hold digests of `DIGEST_LEN` bytes above
/// their leaves, as every tree built by `MerkleTree::from_leaves` does.
pub proof fn lemma_root_binds_leaves(a: Seq<Seq<u8>>, b: Seq<Seq<u8>>) -> (pair: (
    Seq<u8>,
    Seq<u8>,
))
    requires
        0 < a.len() == b.len(),
        forall|i: int| 0 <= i < a.len() ==> a[i].len() == b[i].len(),
        digests_sized(a),
        digests_sized(b),
        tree_root(a) == tree_root(b),
    ensures
        a == b || collision(pair.0, pair.1),
    decreases a.len(),
{
    if a.len() == 1 {
        (a[0], b[0])
    } else {
        let above_a = parent_level(a);
        let above_b = parent_level(b);
        let higher = lemma_root_binds_leaves(above_a, above_b);
        if above_a != above_b {
            higher
        } else if exists|i: int| 0 <= i < above_a.len() && pair_input(a, i) != pair_input(b, i) {
            let i = choose|i: int| 0 <= i < above_a.len() && pair_input(a, i) != pair_input(b, i);
            assert(above_a[i] == above_b[i]);
            (pair_input(a, i), pair_input(b, i))
        } else {
            assert forall|j: int| 0 <= j < a.len() implies a[j] == b[j] by {
                let i = j / 2;
                assert(pair_input(a, i) == pair_input(b, i));
                lemma_concat_injective(
                    a[2 * i],
                    a[sibling_at(a.len() as int, 2 * i)],
                    b[2 * i],
                    b[sibling_at(b.len() as int, 2 * i)],
                );
            }
            higher
        }
    }
}

} // verus!
