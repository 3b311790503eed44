//! Merkle tree over counted veto signals, so that a node can prove its
//! signal was counted without revealing which node sent it.  Each leaf is
//! the SHA-256 of the leaf text; an inner node hashes its two children's
//! hashes; an odd node at the end of a level is paired with itself.
use vstd::prelude::*;
use crate::codec::{hex_decode, hex_decode_spec, hex_encode, hex_encode_spec, lemma_hex_round_trip, sha256, sha256_spec};
use crate::economic_types::{signal_type_name, SignalType};
use crate::error::GovernanceError;
use crate::strings::{i64_to_decimal, int_decimal, str_eq};

verus! {

broadcast use vstd::string::group_string_axioms;

/// Merkle tree node.
#[derive(Debug)]
pub struct MerkleNode {
    hash: [u8; 32],
    left: Option<Box<MerkleNode>>,
    right: Option<Box<MerkleNode>>,
}

/// The hash of an inner node with children hashes `l` and `r`.
pub open spec fn pair_hash(l: Seq<u8>, r: Seq<u8>) -> Seq<u8> {
    sha256_spec(l + r)
}

impl MerkleNode {
    /// The node's hash.
    pub closed spec fn hash_view(self) -> Seq<u8> {
        self.hash@
    }

    /// Leaves have no children; an inner node has two children and hashes
    /// their hashes.
    pub closed spec fn well_formed(self) -> bool
        decreases self,
    {
        match (self.left, self.right) {
            (None, None) => true,
            (Some(l), Some(r)) => self.hash@ == pair_hash(l.hash@, r.hash@) && l.well_formed()
                && r.well_formed(),
            _ => false,
        }
    }

    /// A leaf with hash `t` lies under this node.
    pub closed spec fn has_leaf(self, t: Seq<u8>) -> bool
        decreases self,
    {
        match (self.left, self.right) {
            (None, None) => self.hash@ == t,
            (Some(l), Some(r)) => l.has_leaf(t) || r.has_leaf(t),
            _ => false,
        }
    }

    /// The proof path from the leftmost leaf with hash `t` up to this node:
    /// for each level, the sibling's hash and whether the sibling is on the left.
    pub closed spec fn path_to(self, t: Seq<u8>) -> Seq<(Seq<u8>, bool)>
        decreases self,
    {
        match (self.left, self.right) {
            (Some(l), Some(r)) => if l.has_leaf(t) {
                l.path_to(t).push((r.hash@, false))
            } else if r.has_leaf(t) {
                r.path_to(t).push((l.hash@, true))
            } else {
                Seq::empty()
            },
            _ => Seq::empty(),
        }
    }

    /// A leaf hashing `data`.
    fn new_leaf(data: &[u8]) -> (res: Self)
        ensures
            res.well_formed(),
            res.hash@ == sha256_spec(data@),
            res.has_leaf(sha256_spec(data@)),
            res.left is None && res.right is None,
    {
        MerkleNode { hash: sha256(data), left: None, right: None }
    }

    /// An inner node over two subtrees.
    fn new_internal(left: MerkleNode, right: MerkleNode) -> (res: Self)
        requires
            left.well_formed(),
            right.well_formed(),
        ensures
            res.well_formed(),
            res.hash@ == pair_hash(left.hash@, right.hash@),
            forall|t: Seq<u8>| #[trigger] res.has_leaf(t) <==> left.has_leaf(t) || right.has_leaf(t),
    {
        let both = concat_bytes(&left.hash, &right.hash);
        let hash = sha256(both.as_slice());
        MerkleNode { hash, left: Some(Box::new(left)), right: Some(Box::new(right)) }
    }

    /// An identical copy of the subtree.
    fn duplicate(&self) -> (res: Self)
        ensures
            res == *self,
        decreases self,
    {
        let left = match &self.left {
            Some(l) => Some(Box::new((&**l).duplicate())),
            None => None,
        };
        let right = match &self.right {
            Some(r) => Some(Box::new((&**r).duplicate())),
            None => None,
        };
        MerkleNode { hash: self.hash, left, right }
    }

    /// The root hash.
    fn root_hash(&self) -> (res: [u8; 32])
        ensures
            res@ == self.hash@,
    {
        self.hash
    }
}

/// The bytes of `a` followed by the bytes of `b`.
fn concat_bytes(a: &[u8], b: &[u8]) -> (v: Vec<u8>)
    ensures
        v@ == a@ + b@,
{
    let mut v: Vec<u8> = Vec::new();
    let mut i: usize = 0;
    while i < a.len()
        invariant
            i <= a@.len(),
            v@ == a@.subrange(0, i as int),
        decreases a@.len() - i,
    {
        v.push(a[i]);
        i = i + 1;
        assert(v@ =~= a@.subrange(0, i as int));
    }
    let mut j: usize = 0;
    while j < b.len()
        invariant
            i == a@.len(),
            j <= b@.len(),
            v@ == a@ + b@.subrange(0, j as int),
        decreases b@.len() - j,
    {
        v.push(b[j]);
        j = j + 1;
        assert(v@ =~= a@ + b@.subrange(0, j as int));
    }
    assert(b@.subrange(0, j as int) =~= b@);
    v
}

/// Merkle proof path (for proving a signal was included).
#[derive(Debug, Clone)]
pub struct MerkleProof {
    /// Root hash of the Merkle tree, as hex.
    pub root_hash: String,
    /// Path from leaf to root: each sibling hash as hex, and whether the
    /// sibling is on the left.
    pub path: Vec<(String, bool)>,
    /// Leaf text (voting public key and signal hash).
    pub leaf_data: String,
}

/// The text view of a proof path.
pub open spec fn path_view(p: Seq<(String, bool)>) -> Seq<(Seq<char>, bool)> {
    Seq::new(p.len(), |i: int| (p[i].0@, p[i].1))
}

/// A byte-level proof path written as hex.
pub open spec fn path_hex(p: Seq<(Seq<u8>, bool)>) -> Seq<(Seq<char>, bool)> {
    Seq::new(p.len(), |i: int| (hex_encode_spec(p[i].0), p[i].1))
}

/// One step up the tree: hash the current hash with its sibling, the
/// sibling on the left when the flag says so.
pub open spec fn step_up(cur: Seq<u8>, sib: (Seq<u8>, bool)) -> Seq<u8> {
    if sib.1 { pair_hash(sib.0, cur) } else { pair_hash(cur, sib.0) }
}

/// The hash reached from `leaf` by following the path upward.
pub open spec fn fold_path(leaf: Seq<u8>, p: Seq<(Seq<u8>, bool)>) -> Seq<u8>
    decreases p.len(),
{
    if p.len() == 0 {
        leaf
    } else {
        step_up(fold_path(leaf, p.drop_last()), p.last())
    }
}

/// The sibling hashes of a hex path, when every one is 32 bytes of hex.
pub open spec fn decode_path(p: Seq<(Seq<char>, bool)>) -> Option<Seq<(Seq<u8>, bool)>>
    decreases p.len(),
{
    if p.len() == 0 {
        Some(Seq::empty())
    } else {
        match (decode_path(p.drop_last()), hex_decode_spec(p.last().0)) {
            (Some(prev), Some(b)) => if b.len() == 32 { Some(prev.push((b, p.last().1))) } else { None },
            _ => None,
        }
    }
}

/// The leaf hash of a leaf text: SHA-256 of its UTF-8 bytes.
pub open spec fn leaf_hash(leaf: Seq<char>) -> Seq<u8> {
    sha256_spec(vstd::utf8::encode_utf8(leaf))
}

/// A proof is valid when every sibling and the root are 32 bytes of hex and
/// following the path up from the leaf's hash reaches the root.
pub open spec fn proof_valid(root_hex: Seq<char>, path: Seq<(Seq<char>, bool)>, leaf: Seq<char>) -> bool {
    match (decode_path(path), hex_decode_spec(root_hex)) {
        (Some(dp), Some(r)) => r.len() == 32 && fold_path(leaf_hash(leaf), dp) == r,
        _ => false,
    }
}

/// Recursively find the leftmost leaf with hash `target`, appending the
/// sibling hashes on the way back up.
fn find_leaf_and_build_path(node: &MerkleNode, target: &[u8; 32], path: &mut Vec<(String, bool)>) -> (found: bool)
    ensures
        found == node.has_leaf(target@),
        found ==> path_view(final(path)@) == path_view(old(path)@) + path_hex(node.path_to(target@)),
        !found ==> final(path)@ == old(path)@,
    decreases node,
{
    if node.left.is_none() && node.right.is_none() {
        return bytes_eq(&node.hash, target);
    }
    match (&node.left, &node.right) {
        (Some(left), Some(right)) => {
            let ghost p0 = path@;
            if find_leaf_and_build_path(left, target, path) {
                let ghost p1 = path@;
                path.push((hex_encode(&right.hash), false));
                assert(path_view(path@) =~= path_view(p0) + path_hex(node.path_to(target@))) by {
                    assert(path_view(p1) =~= path_view(p0) + path_hex(left.path_to(target@)));
                    assert(node.path_to(target@) == left.path_to(target@).push((right.hash@, false)));
                    assert(path_hex(node.path_to(target@)) =~= path_hex(left.path_to(target@)).push(
                        (hex_encode_spec(right.hash@), false)));
                    assert(path_view(path@) =~= path_view(p1).push((hex_encode_spec(right.hash@), false)));
                }
                return true;
            }
            if find_leaf_and_build_path(right, target, path) {
                let ghost p1 = path@;
                path.push((hex_encode(&left.hash), true));
                assert(path_view(path@) =~= path_view(p0) + path_hex(node.path_to(target@))) by {
                    assert(path_view(p1) =~= path_view(p0) + path_hex(right.path_to(target@)));
                    assert(!left.has_leaf(target@));
                    assert(node.path_to(target@) == right.path_to(target@).push((left.hash@, true)));
                    assert(path_hex(node.path_to(target@)) =~= path_hex(right.path_to(target@)).push(
                        (hex_encode_spec(left.hash@), true)));
                    assert(path_view(path@) =~= path_view(p1).push((hex_encode_spec(left.hash@), true)));
                }
                return true;
            }
            false
        },
        _ => false,
    }
}

/// Whether a 32-byte array holds exactly the bytes of `b`.
fn bytes_eq(a: &[u8; 32], b: &[u8]) -> (res: bool)
    ensures
        res == (a@ == b@),
{
    if b.len() != 32 {
        return false;
    }
    let mut i: usize = 0;
    while i < 32
        invariant
            i <= 32,
            b@.len() == 32,
            a@.len() == 32,
            forall|j: int| 0 <= j < i ==> a@[j] == b@[j],
        decreases 32 - i,
    {
        if a[i] != b[i] {
            return false;
        }
        i = i + 1;
    }
    assert(a@ =~= b@);
    true
}

/// Generate the Merkle proof for the leaf text `leaf_data`.
fn generate_proof(root: &MerkleNode, leaf_data: &str) -> (res: Result<MerkleProof, GovernanceError>)
    ensures
        res is Ok <==> root.has_leaf(leaf_hash(leaf_data@)),
        res matches Ok(p) ==> p.root_hash@ == hex_encode_spec(root.hash_view())
            && path_view(p.path@) == path_hex(root.path_to(leaf_hash(leaf_data@)))
            && p.leaf_data@ == leaf_data@,
        res matches Err(e) ==> e is CryptoError,
{
    let mut path: Vec<(String, bool)> = Vec::new();
    let leaf = sha256(leaf_data.as_bytes());
    if !find_leaf_and_build_path(root, &leaf, &mut path) {
        return Err(GovernanceError::CryptoError(String::from_str("Leaf not found in Merkle tree")));
    }
    assert(path_view(path@) =~= path_hex(root.path_to(leaf_hash(leaf_data@))));
    Ok(MerkleProof {
        root_hash: hex_encode(&root.hash),
        path,
        leaf_data: String::from_str(leaf_data),
    })
}

/// Check a Merkle proof: follow the path up from the leaf's hash and
/// compare with the root.  A sibling or root that is not 32 bytes of hex
/// makes the proof invalid.
pub fn verify_merkle_proof(proof: &MerkleProof) -> (res: bool)
    ensures
        res == proof_valid(proof.root_hash@, path_view(proof.path@), proof.leaf_data@),
{
    let mut current = sha256(proof.leaf_data.as_str().as_bytes());
    let ghost pv = path_view(proof.path@);
    let mut i: usize = 0;
    while i < proof.path.len()
        invariant
            i <= proof.path@.len(),
            pv == path_view(proof.path@),
            decode_path(pv.take(i as int)) matches Some(dp) && current@ == fold_path(
                leaf_hash(proof.leaf_data@),
                dp,
            ),
        decreases proof.path@.len() - i,
    {
        assert(pv.take(i + 1).drop_last() =~= pv.take(i as int));
        let ghost dp = decode_path(pv.take(i as int)).unwrap();
        let sibling = match hex_decode(proof.path[i].0.as_str()) {
            Ok(b) => b,
            Err(_) => {
                proof { lemma_decode_prefix_fails(pv, i as int + 1); }
                return false;
            },
        };
        if sibling.len() != 32 {
            proof { lemma_decode_prefix_fails(pv, i as int + 1); }
            return false;
        }
        let both = if proof.path[i].1 {
            concat_bytes(sibling.as_slice(), &current)
        } else {
            concat_bytes(&current, sibling.as_slice())
        };
        current = sha256(both.as_slice());
        proof {
            let dp2 = dp.push((sibling@, pv[i as int].1));
            assert(decode_path(pv.take(i + 1)) == Some(dp2));
            assert(dp2.drop_last() =~= dp);
        }
        i = i + 1;
    }
    assert(pv.take(pv.len() as int) =~= pv);
    let root = match hex_decode(proof.root_hash.as_str()) {
        Ok(b) => b,
        Err(_) => {
            return false;
        },
    };
    bytes_eq(&current, root.as_slice())
}


/// Hashes of the next level up: neighbours paired in order, an odd last
/// hash paired with itself.
pub open spec fn next_level(hs: Seq<Seq<u8>>) -> Seq<Seq<u8>>
    decreases hs.len(),
{
    if hs.len() == 0 {
        Seq::empty()
    } else if hs.len() == 1 {
        seq![pair_hash(hs[0], hs[0])]
    } else {
        seq![pair_hash(hs[0], hs[1])] + next_level(hs.subrange(2, hs.len() as int))
    }
}

/// Pairing a level roughly halves it.
pub proof fn lemma_next_level_len(hs: Seq<Seq<u8>>)
    ensures
        next_level(hs).len() == (hs.len() + 1) / 2,
    decreases hs.len(),
{
    if hs.len() > 1 {
        lemma_next_level_len(hs.subrange(2, hs.len() as int));
    }
}

/// The hash left after pairing level by level until one hash remains.
pub open spec fn reduce_levels(hs: Seq<Seq<u8>>) -> Seq<u8>
    decreases hs.len(),
{
    if hs.len() <= 1 {
        hs[0]
    } else {
        proof {
            lemma_next_level_len(hs);
        }
        reduce_levels(next_level(hs))
    }
}

/// The Merkle root of leaf hashes `hs`: a lone leaf is paired with itself;
/// otherwise levels are paired until one hash remains.
pub open spec fn merkle_root_spec(hs: Seq<Seq<u8>>) -> Seq<u8> {
    if hs.len() == 1 {
        pair_hash(hs[0], hs[0])
    } else {
        reduce_levels(hs)
    }
}

/// The hashes of a row of nodes.
pub open spec fn hashes(nodes: Seq<MerkleNode>) -> Seq<Seq<u8>> {
    Seq::new(nodes.len(), |i: int| nodes[i].hash_view())
}

/// Some node of the row has a leaf with hash `t`.
pub open spec fn row_has_leaf(nodes: Seq<MerkleNode>, t: Seq<u8>) -> bool {
    exists|i: int| 0 <= i < nodes.len() && #[trigger] nodes[i].has_leaf(t)
}

/// Every node of the row is well formed.
pub open spec fn row_well_formed(nodes: Seq<MerkleNode>) -> bool {
    forall|i: int| 0 <= i < nodes.len() ==> #[trigger] nodes[i].well_formed()
}

/// One level up: pair the nodes of `level` in order.
fn pair_level(level: Vec<MerkleNode>) -> (next: Vec<MerkleNode>)
    requires
        row_well_formed(level@),
    ensures
        row_well_formed(next@),
        hashes(next@) == next_level(hashes(level@)),
        forall|t: Seq<u8>| row_has_leaf(level@, t) ==> row_has_leaf(next@, t),
{
    let ghost start = level@;
    let mut rest = level;
    let mut next: Vec<MerkleNode> = Vec::new();
    while rest.len() > 0
        invariant
            row_well_formed(rest@),
            row_well_formed(next@),
            hashes(next@) + next_level(hashes(rest@)) == next_level(hashes(start)),
            forall|t: Seq<u8>| row_has_leaf(start, t) ==> row_has_leaf(next@, t) || row_has_leaf(rest@, t),
        decreases rest@.len(),
    {
        let ghost r0 = rest@;
        let ghost n0 = next@;
        let left = rest.remove(0);
        let node = if rest.len() > 0 {
            let right = rest.remove(0);
            assert(hashes(rest@) =~= hashes(r0).subrange(2, r0.len() as int));
            let n = MerkleNode::new_internal(left, right);
            proof {
                assert forall|t: Seq<u8>| row_has_leaf(r0, t) implies n.has_leaf(t) || row_has_leaf(rest@, t) by {
                    let i = choose|i: int| 0 <= i < r0.len() && #[trigger] r0[i].has_leaf(t);
                    if i >= 2 {
                        assert(rest@[i - 2] == r0[i]);
                    }
                }
            }
            n
        } else {
            let copy = left.duplicate();
            let n = MerkleNode::new_internal(left, copy);
            proof {
                assert forall|t: Seq<u8>| row_has_leaf(r0, t) implies n.has_leaf(t) by {
                    let i = choose|i: int| 0 <= i < r0.len() && #[trigger] r0[i].has_leaf(t);
                }
            }
            n
        };
        next.push(node);
        proof {
            assert(hashes(next@) =~= hashes(n0).push(node.hash_view()));
            assert(hashes(n0) + next_level(hashes(r0)) =~= hashes(next@) + next_level(hashes(rest@)));
            assert forall|i: int| 0 <= i < next@.len() implies #[trigger] next@[i].well_formed() by {
                if i < n0.len() {
                    assert(next@[i] == n0[i]);
                }
            }
            assert forall|i: int| 0 <= i < rest@.len() implies #[trigger] rest@[i].well_formed() by {
                assert(rest@[i] == r0[i + r0.len() - rest@.len()]);
            }
            assert forall|t: Seq<u8>| row_has_leaf(start, t) implies row_has_leaf(next@, t) || row_has_leaf(rest@, t) by {
                if row_has_leaf(n0, t) {
                    let i = choose|i: int| 0 <= i < n0.len() && #[trigger] n0[i].has_leaf(t);
                    assert(next@[i] == n0[i]);
                } else if row_has_leaf(r0, t) && !row_has_leaf(rest@, t) {
                    assert(next@[n0.len() as int] == node);
                }
            }
        }
    }
    assert(next_level(hashes(rest@)) =~= Seq::<Seq<u8>>::empty());
    assert(hashes(next@) =~= next_level(hashes(start)));
    next
}

/// Build the Merkle tree over a row of leaves.
fn build_tree(leaves: Vec<MerkleNode>) -> (res: Result<MerkleNode, GovernanceError>)
    requires
        row_well_formed(leaves@),
    ensures
        res is Ok <==> leaves@.len() > 0,
        res matches Ok(root) ==> root.well_formed() && root.hash_view() == merkle_root_spec(hashes(leaves@))
            && forall|t: Seq<u8>| row_has_leaf(leaves@, t) ==> root.has_leaf(t),
        res matches Err(e) ==> e is CryptoError,
{
    let ghost start = leaves@;
    let mut level = leaves;
    if level.len() == 0 {
        return Err(GovernanceError::CryptoError(String::from_str("Cannot build tree from empty leaves")));
    }
    if level.len() == 1 {
        let leaf = level.remove(0);
        assert(leaf == start[0]);
        let copy = leaf.duplicate();
        let root = MerkleNode::new_internal(leaf, copy);
        proof {
            assert forall|t: Seq<u8>| row_has_leaf(start, t) implies root.has_leaf(t) by {
                let i = choose|i: int| 0 <= i < start.len() && #[trigger] start[i].has_leaf(t);
            }
        }
        return Ok(root);
    }
    while level.len() > 1
        invariant
            level@.len() >= 1,
            row_well_formed(level@),
            reduce_levels(hashes(level@)) == reduce_levels(hashes(start)),
            forall|t: Seq<u8>| row_has_leaf(start, t) ==> row_has_leaf(level@, t),
        decreases level@.len(),
    {
        let ghost l0 = level@;
        level = pair_level(level);
        proof {
            lemma_next_level_len(hashes(l0));
        }
    }
    let ghost last = level@;
    let root = level.remove(0);
    proof {
        assert(root == last[0]);
        assert(root.well_formed());
        assert(hashes(last) =~= seq![root.hash_view()]);
        assert forall|t: Seq<u8>| row_has_leaf(start, t) implies root.has_leaf(t) by {
            assert(row_has_leaf(last, t));
            let i = choose|i: int| 0 <= i < last.len() && #[trigger] last[i].has_leaf(t);
        }
    }
    Ok(root)
}


/// A counted veto signal, as the tree needs it.  The weight and timestamp
/// arrive as the text they are written as in the signal hash.
#[derive(Debug, Clone)]
pub struct CountedSignal {
    pub pr_id: i32,
    pub signal_type: SignalType,
    /// The signal weight as decimal text.
    pub weight_text: String,
    /// The signal time in RFC 3339 form.
    pub timestamp_text: String,
    pub voting_public_key: Option<String>,
}

/// The text hashed into a signal hash: PR id, signal type, weight and
/// timestamp, separated by ':'.
pub open spec fn signal_data_spec(s: CountedSignal) -> Seq<char> {
    int_decimal(s.pr_id as int) + ":"@ + signal_type_name(s.signal_type) + ":"@ + s.weight_text@ + ":"@
        + s.timestamp_text@
}

/// The leaf text of a signal with voting key `key`: the key, ':', and the
/// hex of the SHA-256 of the signal data.
pub open spec fn leaf_text_spec(key: Seq<char>, s: CountedSignal) -> Seq<char> {
    key + ":"@ + hex_encode_spec(sha256_spec(vstd::utf8::encode_utf8(signal_data_spec(s))))
}

/// The voting key of a signal, as text (empty when missing).
pub open spec fn key_of(s: CountedSignal) -> Seq<char> {
    match s.voting_public_key {
        Some(k) => k@,
        None => Seq::empty(),
    }
}

/// The leaf hashes of the signals, in order.
pub open spec fn signal_leaf_hashes(sigs: Seq<CountedSignal>) -> Seq<Seq<u8>> {
    Seq::new(sigs.len(), |i: int| leaf_hash(leaf_text_spec(key_of(sigs[i]), sigs[i])))
}

/// The signal text hashed into a signal hash.
fn signal_data_text(s: &CountedSignal) -> (res: String)
    ensures
        res@ == signal_data_spec(*s),
{
    let mut text = i64_to_decimal(s.pr_id as i64);
    text.append(":");
    text.append(s.signal_type.as_str());
    text.append(":");
    text.append(s.weight_text.as_str());
    text.append(":");
    text.append(s.timestamp_text.as_str());
    text
}

/// The facts linking the signals `sv` to their leaves `lv` and to the
/// per-key list `bk` of (voting key, leaf text), where `origin[a]` is the
/// position of the signal the entry `a` came from: the last one with that key.
spec fn keyed_leaves_ok(sv: Seq<CountedSignal>, lv: Seq<MerkleNode>, bk: Seq<(String, String)>, origin: Seq<int>, cover: Seq<int>) -> bool {
    &&& lv_facts(sv, lv)
    &&& origin.len() == bk.len()
    &&& forall|a: int, b: int| 0 <= a < b < bk.len() ==> bk[a].0@ != bk[b].0@
    &&& cover.len() == sv.len()
    &&& forall|j: int| 0 <= j < sv.len() ==> 0 <= #[trigger] cover[j] < bk.len() && bk[cover[j]].0@ == key_of(sv[j])
    &&& forall|a: int| 0 <= a < bk.len() ==> {
        let o = #[trigger] origin[a];
        &&& 0 <= o < sv.len()
        &&& key_of(sv[o]) == bk[a].0@
        &&& bk[a].1@ == leaf_text_spec(bk[a].0@, sv[o])
        &&& forall|j: int| o < j < sv.len() ==> key_of(sv[j]) != bk[a].0@
    }
}

/// The leaves `lv` are the signals' leaves, in order.
spec fn lv_facts(sv: Seq<CountedSignal>, lv: Seq<MerkleNode>) -> bool {
    &&& lv.len() == sv.len()
    &&& row_well_formed(lv)
    &&& hashes(lv) == signal_leaf_hashes(sv)
    &&& forall|j: int| 0 <= j < sv.len() ==> (#[trigger] lv[j]).has_leaf(leaf_hash(leaf_text_spec(key_of(sv[j]), sv[j])))
}

/// The leaves of the signals, and for each distinct voting key the leaf
/// text of the last signal carrying it.  Fails on a signal without a key.
fn collect_leaves(signals: &Vec<CountedSignal>) -> (res: Result<(Vec<MerkleNode>, Vec<(String, String)>, Ghost<(Seq<int>, Seq<int>)>), GovernanceError>)
    ensures
        res is Ok <==> forall|i: int| 0 <= i < signals@.len() ==> (#[trigger] signals@[i]).voting_public_key is Some,
        res matches Err(e) ==> e is CryptoError,
        res matches Ok(out) ==> keyed_leaves_ok(signals@, out.0@, out.1@, out.2@.0, out.2@.1),
{
    let ghost sv = signals@;
    let mut leaves: Vec<MerkleNode> = Vec::new();
    let mut by_key: Vec<(String, String)> = Vec::new();
    let ghost mut origin: Seq<int> = Seq::empty();
    let ghost mut cover: Seq<int> = Seq::empty();
    let mut i: usize = 0;
    while i < signals.len()
        invariant
            sv == signals@,
            cover.len() == i,
            forall|j: int| 0 <= j < i ==> 0 <= #[trigger] cover[j] < by_key@.len() && by_key@[cover[j]].0@ == key_of(sv[j]),
            i <= sv.len(),
            leaves@.len() == i,
            row_well_formed(leaves@),
            forall|j: int| 0 <= j < i ==> sv[j].voting_public_key is Some,
            forall|j: int| 0 <= j < i ==> (#[trigger] leaves@[j]).has_leaf(leaf_hash(leaf_text_spec(key_of(sv[j]), sv[j]))),
            hashes(leaves@) == signal_leaf_hashes(sv.take(i as int)),
            origin.len() == by_key@.len(),
            forall|a: int, b: int| 0 <= a < b < by_key@.len() ==> by_key@[a].0@ != by_key@[b].0@,
            forall|a: int| 0 <= a < by_key@.len() ==> {
                let o = #[trigger] origin[a];
                &&& 0 <= o < i
                &&& key_of(sv[o]) == by_key@[a].0@
                &&& by_key@[a].1@ == leaf_text_spec(by_key@[a].0@, sv[o])
                &&& forall|j: int| o < j < i ==> key_of(sv[j]) != by_key@[a].0@
            },
        decreases sv.len() - i,
    {
        let signal = &signals[i];
        let key = match &signal.voting_public_key {
            Some(k) => k,
            None => {
                return Err(GovernanceError::CryptoError(String::from_str("Signal missing voting_public_key")));
            },
        };
        let data = signal_data_text(signal);
        let signal_hash = sha256(data.as_str().as_bytes());
        let mut leaf_text = key.clone();
        leaf_text.append(":");
        let hex = hex_encode(&signal_hash);
        leaf_text.append(hex.as_str());
        assert(leaf_text@ == leaf_text_spec(key_of(sv[i as int]), sv[i as int]));
        let leaf = MerkleNode::new_leaf(leaf_text.as_str().as_bytes());
        let ghost l0 = leaves@;
        leaves.push(leaf);
        proof {
            assert(leaf.hash_view() == leaf_hash(leaf_text_spec(key_of(sv[i as int]), sv[i as int])));
            assert forall|j: int| 0 <= j < i + 1 implies #[trigger] hashes(leaves@)[j] == signal_leaf_hashes(sv.take(i + 1))[j] by {
                if j < i {
                    assert(leaves@[j] == l0[j]);
                    assert(hashes(l0)[j] == signal_leaf_hashes(sv.take(i as int))[j]);
                }
            }
            assert(hashes(leaves@) =~= signal_leaf_hashes(sv.take(i + 1)));
            assert forall|j: int| 0 <= j < leaves@.len() implies #[trigger] leaves@[j].well_formed() by {
                if j < i {
                    assert(leaves@[j] == l0[j]);
                }
            }
            assert forall|j: int| 0 <= j < i + 1 implies (#[trigger] leaves@[j]).has_leaf(leaf_hash(leaf_text_spec(key_of(sv[j]), sv[j]))) by {
                if j < i {
                    assert(leaves@[j] == l0[j]);
                }
            }
        }
        let mut found: Option<usize> = None;
        let mut a: usize = 0;
        while a < by_key.len()
            invariant
                a <= by_key@.len(),
                found matches Some(f) ==> f < by_key@.len() && by_key@[f as int].0@ == key@,
                found is None ==> forall|b: int| 0 <= b < a ==> by_key@[b].0@ != key@,
            decreases by_key@.len() - a,
        {
            if found.is_none() && str_eq(by_key[a].0.as_str(), key.as_str()) {
                found = Some(a);
            }
            a = a + 1;
        }
        let ghost bk0 = by_key@;
        match found {
            Some(f) => {
                by_key.set(f, (key.clone(), leaf_text));
                proof {
                    origin = origin.update(f as int, i as int);
                    cover = cover.push(f as int);
                }
            },
            None => {
                by_key.push((key.clone(), leaf_text));
                proof {
                    origin = origin.push(i as int);
                    cover = cover.push(bk0.len() as int);
                }
            },
        }
        proof {
            assert forall|a: int, b: int| 0 <= a < b < by_key@.len() implies by_key@[a].0@ != by_key@[b].0@ by {
                if found is None && b == bk0.len() {
                    assert(by_key@[a] == bk0[a]);
                } else if let Some(f) = found {
                    if a == f {
                        assert(by_key@[b] == bk0[b]);
                    } else if b == f {
                        assert(by_key@[a] == bk0[a]);
                    } else {
                        assert(by_key@[a] == bk0[a]);
                        assert(by_key@[b] == bk0[b]);
                    }
                } else {
                    assert(by_key@[a] == bk0[a]);
                    assert(by_key@[b] == bk0[b]);
                }
            }
            assert forall|j: int| 0 <= j < i + 1 implies 0 <= #[trigger] cover[j] < by_key@.len() && by_key@[cover[j]].0@ == key_of(sv[j]) by {
                if j < i {
                    let a = cover[j];
                    if let Some(f) = found {
                        if a == f {
                            assert(by_key@[a].0@ == key@);
                        } else {
                            assert(by_key@[a] == bk0[a]);
                        }
                    } else {
                        assert(by_key@[a] == bk0[a]);
                    }
                }
            }
            assert forall|a: int| 0 <= a < by_key@.len() implies {
                let o = #[trigger] origin[a];
                &&& 0 <= o < i + 1
                &&& key_of(sv[o]) == by_key@[a].0@
                &&& by_key@[a].1@ == leaf_text_spec(by_key@[a].0@, sv[o])
                &&& forall|j: int| o < j < i + 1 ==> key_of(sv[j]) != by_key@[a].0@
            } by {
                if let Some(f) = found {
                    if a != f {
                        assert(by_key@[a] == bk0[a]);
                        assert(bk0[a].0@ != key@);
                    }
                } else {
                    if a < bk0.len() {
                        assert(by_key@[a] == bk0[a]);
                    }
                }
            }
        }
        i = i + 1;
    }
    proof {
        assert(sv.take(sv.len() as int) =~= sv);
        assert(lv_facts(sv, leaves@));
        assert(origin.len() == by_key@.len());
        assert(forall|a: int, b: int| 0 <= a < b < by_key@.len() ==> by_key@[a].0@ != by_key@[b].0@);
        assert(i == sv.len());
        assert(forall|a: int| 0 <= a < by_key@.len() ==> {
            let o = #[trigger] origin[a];
            &&& 0 <= o < sv.len()
            &&& key_of(sv[o]) == by_key@[a].0@
            &&& by_key@[a].1@ == leaf_text_spec(by_key@[a].0@, sv[o])
            &&& forall|j: int| o < j < sv.len() ==> key_of(sv[j]) != by_key@[a].0@
        });
        assert(keyed_leaves_ok(sv, leaves@, by_key@, origin, cover));
    }
    Ok((leaves, by_key, Ghost((origin, cover))))
}

/// Build the Merkle tree over counted veto signals and a proof for each
/// voting key.  Fails on an empty list and on a signal without a voting
/// key.  When several signals share a voting key, its proof is for the
/// last of them.
#[verifier::rlimit(50)]
pub fn build_veto_merkle_tree(signals: &Vec<CountedSignal>) -> (res: Result<([u8; 32], Vec<(String, MerkleProof)>), GovernanceError>)
    ensures
        res is Ok <==> signals@.len() > 0 && forall|i: int| 0 <= i < signals@.len() ==> (#[trigger] signals@[i]).voting_public_key is Some,
        res matches Err(e) ==> e is CryptoError,
        res matches Ok(out) ==> out.0@ == merkle_root_spec(signal_leaf_hashes(signals@)),
        res matches Ok(out) ==> proofs_for_signals(signals@, out.1@, out.0@),
{
    if signals.len() == 0 {
        return Err(GovernanceError::CryptoError(String::from_str("Cannot build Merkle tree from empty signal list")));
    }
    let ghost sv = signals@;
    let (leaves, by_key, facts) = match collect_leaves(signals) {
        Ok(out) => out,
        Err(e) => {
            return Err(e);
        },
    };
    let ghost lv = leaves@;
    let ghost origin = facts@.0;
    let ghost cover = facts@.1;
    let root = match build_tree(leaves) {
        Ok(r) => r,
        Err(e) => {
            return Err(e);
        },
    };
    let root_hash = root.root_hash();
    let mut proofs: Vec<(String, MerkleProof)> = Vec::new();
    let mut a: usize = 0;
    while a < by_key.len()
        invariant
            a <= by_key@.len(),
            proofs@.len() == a,
            sv == signals@,
            keyed_leaves_ok(sv, lv, by_key@, origin, cover),
            root.well_formed(),
            root_hash@ == root.hash_view(),
            forall|t: Seq<u8>| row_has_leaf(lv, t) ==> root.has_leaf(t),
            forall|b: int| 0 <= b < a ==> (#[trigger] proofs@[b]).0@ == by_key@[b].0@,
            forall|b: int| 0 <= b < a ==> {
                let p = (#[trigger] proofs@[b]).1;
                &&& p.leaf_data@ == by_key@[b].1@
                &&& p.root_hash@ == hex_encode_spec(root_hash@)
                &&& proof_valid(p.root_hash@, path_view(p.path@), p.leaf_data@)
            },
        decreases by_key@.len() - a,
    {
        let ghost o = origin[a as int];
        assert(root.has_leaf(leaf_hash(by_key@[a as int].1@))) by {
            assert(lv[o].has_leaf(leaf_hash(leaf_text_spec(key_of(sv[o]), sv[o]))));
            assert(row_has_leaf(lv, leaf_hash(by_key@[a as int].1@)));
        }
        let proof = match generate_proof(&root, by_key[a].1.as_str()) {
            Ok(p) => p,
            Err(e) => {
                return Err(e);
            },
        };
        proof {
            lemma_generated_proof_valid(root, by_key@[a as int].1@);
        }
        let ghost p0 = proofs@;
        proofs.push((by_key[a].0.clone(), proof));
        proof {
            assert forall|b: int| 0 <= b < a + 1 implies (#[trigger] proofs@[b]).0@ == by_key@[b].0@ by {
                if b < a {
                    assert(proofs@[b] == p0[b]);
                }
            }
        }
        a = a + 1;
    }
    proof {
        lemma_proof_list(sv, by_key@, origin, cover, proofs@, root_hash@);
    }
    Ok((root_hash, proofs))
}


/// Signal `i` is the last of `sigs` whose voting key is `k`.
pub open spec fn last_with_key(sigs: Seq<CountedSignal>, i: int, k: Seq<char>) -> bool {
    &&& 0 <= i < sigs.len()
    &&& key_of(sigs[i]) == k
    &&& forall|j: int| i < j < sigs.len() ==> key_of(sigs[j]) != k
}

/// One (voting key, proof) entry for signals `sigs` under root `root`: its
/// leaf is the leaf of the last signal with that key, it names the root,
/// and it is valid.
pub open spec fn proof_entry_ok(sigs: Seq<CountedSignal>, e: (String, MerkleProof), root: Seq<u8>) -> bool {
    &&& exists|i: int| #[trigger] last_with_key(sigs, i, e.0@) && e.1.leaf_data@ == leaf_text_spec(e.0@, sigs[i])
    &&& e.1.root_hash@ == hex_encode_spec(root)
    &&& proof_valid(e.1.root_hash@, path_view(e.1.path@), e.1.leaf_data@)
}

/// Some entry of `proofs` is for voting key `k`.
pub open spec fn key_listed(proofs: Seq<(String, MerkleProof)>, k: Seq<char>) -> bool {
    exists|a: int| 0 <= a < proofs.len() && #[trigger] proofs[a].0@ == k
}

/// What the proofs made for signals `sigs` under root `root` satisfy: one
/// entry per distinct voting key, every signal's key has one, and every
/// entry is as `proof_entry_ok` says.
pub open spec fn proofs_for_signals(sigs: Seq<CountedSignal>, proofs: Seq<(String, MerkleProof)>, root: Seq<u8>) -> bool {
    &&& forall|a: int, b: int| 0 <= a < b < proofs.len() ==> proofs[a].0@ != proofs[b].0@
    &&& forall|i: int| 0 <= i < sigs.len() ==> key_listed(proofs, key_of(#[trigger] sigs[i]))
    &&& forall|a: int| 0 <= a < proofs.len() ==> proof_entry_ok(sigs, #[trigger] proofs[a], root)
}

proof fn lemma_proof_list(sv: Seq<CountedSignal>, bk: Seq<(String, String)>, origin: Seq<int>, cover: Seq<int>, proofs: Seq<(String, MerkleProof)>, root: Seq<u8>)
    requires
        origin.len() == bk.len(),
        proofs.len() == bk.len(),
        forall|a: int, b: int| 0 <= a < b < bk.len() ==> bk[a].0@ != bk[b].0@,
        cover.len() == sv.len(),
        forall|j: int| 0 <= j < sv.len() ==> 0 <= #[trigger] cover[j] < bk.len() && bk[cover[j]].0@ == key_of(sv[j]),
        forall|a: int| 0 <= a < bk.len() ==> {
            let o = #[trigger] origin[a];
            &&& 0 <= o < sv.len()
            &&& key_of(sv[o]) == bk[a].0@
            &&& bk[a].1@ == leaf_text_spec(bk[a].0@, sv[o])
            &&& forall|j: int| o < j < sv.len() ==> key_of(sv[j]) != bk[a].0@
        },
        forall|b: int| 0 <= b < proofs.len() ==> (#[trigger] proofs[b]).0@ == bk[b].0@,
        forall|b: int| 0 <= b < proofs.len() ==> {
            let p = (#[trigger] proofs[b]).1;
            &&& p.leaf_data@ == bk[b].1@
            &&& p.root_hash@ == hex_encode_spec(root)
            &&& proof_valid(p.root_hash@, path_view(p.path@), p.leaf_data@)
        },
    ensures
        proofs_for_signals(sv, proofs, root),
{
    assert forall|i: int| 0 <= i < sv.len() implies key_listed(proofs, key_of(#[trigger] sv[i])) by {
        let a = cover[i];
        assert(proofs[a].0@ == bk[a].0@);
    }
    assert forall|a: int| 0 <= a < proofs.len() implies proof_entry_ok(sv, #[trigger] proofs[a], root) by {
        let o = origin[a];
        assert(proofs[a].0@ == bk[a].0@);
        assert(last_with_key(sv, o, proofs[a].0@));
    }
    assert forall|a: int, b: int| 0 <= a < b < proofs.len() implies proofs[a].0@ != proofs[b].0@ by {
        assert(proofs[a].0@ == bk[a].0@);
        assert(proofs[b].0@ == bk[b].0@);
    }
}

/// Once a prefix of a path fails to decode, the whole path fails.
proof fn lemma_decode_prefix_fails(p: Seq<(Seq<char>, bool)>, n: int)
    requires
        0 <= n <= p.len(),
        decode_path(p.take(n)) is None,
    ensures
        decode_path(p) is None,
    decreases p.len() - n,
{
    if n < p.len() {
        assert(p.take(n + 1).drop_last() =~= p.take(n));
        lemma_decode_prefix_fails(p, n + 1);
    } else {
        assert(p.take(n) =~= p);
    }
}

/// The path to a leaf of a well-formed tree leads from the leaf's hash up
/// to the tree's hash.
pub proof fn lemma_path_reaches_root(node: MerkleNode, t: Seq<u8>)
    requires
        node.well_formed(),
        node.has_leaf(t),
    ensures
        fold_path(t, node.path_to(t)) == node.hash_view(),
    decreases node,
{
    match (node.left, node.right) {
        (Some(l), Some(r)) => {
            if l.has_leaf(t) {
                lemma_path_reaches_root(*l, t);
                assert(node.path_to(t).drop_last() =~= l.path_to(t));
            } else {
                lemma_path_reaches_root(*r, t);
                assert(node.path_to(t).drop_last() =~= r.path_to(t));
            }
        },
        _ => {},
    }
}

/// Every hash in a tree, and so every sibling on a path, is 32 bytes; the
/// hex path therefore decodes back to the byte path.
proof fn lemma_path_decodes(node: MerkleNode, t: Seq<u8>)
    ensures
        decode_path(path_hex(node.path_to(t))) == Some(node.path_to(t)),
    decreases node,
{
    let p = node.path_to(t);
    match (node.left, node.right) {
        (Some(l), Some(r)) => {
            if l.has_leaf(t) {
                lemma_path_decodes(*l, t);
                lemma_hex_round_trip(r.hash@);
                assert(path_hex(p).drop_last() =~= path_hex(l.path_to(t)));
            } else if r.has_leaf(t) {
                lemma_path_decodes(*r, t);
                lemma_hex_round_trip(l.hash@);
                assert(path_hex(p).drop_last() =~= path_hex(r.path_to(t)));
            } else {
                assert(path_hex(p) =~= Seq::<(Seq<char>, bool)>::empty());
            }
        },
        _ => {
            assert(path_hex(p) =~= Seq::<(Seq<char>, bool)>::empty());
        },
    }
}

/// A proof generated for a leaf of a well-formed tree is valid.
pub proof fn lemma_generated_proof_valid(root: MerkleNode, leaf: Seq<char>)
    requires
        root.well_formed(),
        root.has_leaf(leaf_hash(leaf)),
    ensures
        proof_valid(hex_encode_spec(root.hash_view()), path_hex(root.path_to(leaf_hash(leaf))), leaf),
{
    lemma_path_reaches_root(root, leaf_hash(leaf));
    lemma_path_decodes(root, leaf_hash(leaf));
    lemma_hex_round_trip(root.hash_view());
}

} // verus!
