//! The inclusion check: reducing a leaf node and a sibling path to a root,
//! level by level, and comparing the result with the claimed root. The
//! path's length gives the tree depth, and at each level the index's parity
//! decides whether the running node is the left or the right child.

use vstd::prelude::*;
use vstd::arithmetic::power2::{pow2, lemma_pow2_strictly_increases, lemma2_to64};
use vstd::bits::{lemma_u64_shl_is_mul, lemma_u64_pow2_no_overflow};
use crate::digest::{keccak256_of, keccak256};
use crate::encode::push_bytes;

verus! {

/// The root that a node at position `index` reduces to along `siblings`:
/// at each level the node is hashed with its sibling, the node first when
/// its position is even (a left child), the sibling first when odd.
pub open spec fn merkle_root(node: Seq<u8>, index: nat, siblings: Seq<Seq<u8>>) -> Seq<u8>
    decreases siblings.len(),
{
    if siblings.len() == 0 {
        node
    } else {
        let parent = if index % 2 == 0 {
            keccak256_of(node + siblings[0])
        } else {
            keccak256_of(siblings[0] + node)
        };
        merkle_root(parent, index / 2, siblings.drop_first())
    }
}

/// The views of a path's hashes.
pub open spec fn path_view(path: Seq<[u8; 32]>) -> Seq<Seq<u8>> {
    path.map_values(|s: [u8; 32]| s@)
}

/// When an inclusion claim holds: the index lies within the depth that the
/// path implies, and the path reduces the leaf to exactly the claimed root.
pub open spec fn inclusion_holds(
    root: Seq<u8>,
    leaf: Seq<u8>,
    index: u32,
    siblings: Seq<Seq<u8>>,
) -> bool {
    &&& (index as nat) < pow2(siblings.len())
    &&& merkle_root(leaf, index as nat, siblings) == root
}

/// Law: one reduction, one root. A leaf, an index and a sibling path reduce
/// to exactly one root, so an inclusion claim that succeeds for one root
/// fails for every differing root, and a successful check cannot be replayed
/// against another root.
pub proof fn lemma_inclusion_root_unique(
    root1: Seq<u8>,
    root2: Seq<u8>,
    leaf: Seq<u8>,
    index: u32,
    siblings: Seq<Seq<u8>>,
)
    requires
        inclusion_holds(root1, leaf, index, siblings),
        inclusion_holds(root2, leaf, index, siblings),
    ensures
        root1 == root2,
{
}

/// Compares two 32-byte values byte for byte.
pub(crate) fn eq_bytes32(a: &[u8; 32], b: &[u8; 32]) -> (r: bool)
    ensures
        r == (a@ == b@),
{
    let mut i: usize = 0;
    while i < 32
        invariant
            i <= 32,
            forall|k: int| 0 <= k < i ==> a@[k] == b@[k],
        decreases 32 - i,
    {
        if a[i] != b[i] {
            return false;
        }
        i += 1;
    }
    proof {
        assert(a@ =~= b@);
    }
    true
}

/// Decides whether `index` lies within a tree of depth `depth`.
fn index_in_range(index: u32, depth: usize) -> (r: bool)
    ensures
        r == ((index as nat) < pow2(depth as nat)),
{
    if depth >= 32 {
        proof {
            lemma2_to64();
            if depth > 32 {
                lemma_pow2_strictly_increases(32, depth as nat);
            }
        }
        true
    } else {
        proof {
            lemma_u64_pow2_no_overflow(depth as nat);
            lemma_u64_shl_is_mul(1, depth as u64);
        }
        (index as u64) < (1u64 << (depth as u64))
    }
}

/// Checks the caller's inclusion claim: succeeds exactly when `index` is in
/// range for the depth the path implies and the path reduces `leaf` to
/// `root`. A failed check is terminal for the given inputs; no different
/// outcome is possible without new inputs.
pub fn verify_inclusion(
    root: &[u8; 32],
    leaf: &[u8; 32],
    index: u32,
    path: &Vec<[u8; 32]>,
) -> (r: bool)
    ensures
        r == inclusion_holds(root@, leaf@, index, path_view(path@)),
{
    if !index_in_range(index, path.len()) {
        return false;
    }
    let ghost views = path_view(path@);
    proof {
        assert(views.skip(0) =~= views);
    }
    let mut node: [u8; 32] = *leaf;
    let mut idx: u32 = index;
    let n = path.len();
    let mut i: usize = 0;
    while i < n
        invariant
            n == path@.len(),
            views == path_view(path@),
            i <= n,
            merkle_root(node@, idx as nat, views.skip(i as int)) == merkle_root(
                leaf@,
                index as nat,
                views,
            ),
        decreases n - i,
    {
        let sib: [u8; 32] = path[i];
        let mut buf: Vec<u8> = Vec::new();
        if idx % 2 == 0 {
            push_bytes(&mut buf, node.as_slice());
            push_bytes(&mut buf, sib.as_slice());
            proof {
                assert(buf@ =~= node@ + sib@);
            }
        } else {
            push_bytes(&mut buf, sib.as_slice());
            push_bytes(&mut buf, node.as_slice());
            proof {
                assert(buf@ =~= sib@ + node@);
            }
        }
        let parent = keccak256(buf.as_slice());
        proof {
            assert(views.skip(i as int)[0] == sib@);
            assert(views.skip(i as int).drop_first() =~= views.skip(i + 1));
        }
        node = parent;
        idx = idx / 2;
        i += 1;
    }
    proof {
        assert(views.skip(n as int) =~= Seq::<Seq<u8>>::empty());
    }
    eq_bytes32(&node, root)
}

} // verus!
