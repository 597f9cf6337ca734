use vstd::prelude::*;

use crate::hashing::{be_bytes, hash_bytes, hash_pair, keccak_of, push_all, push_be};
use crate::types::{hash_eq, BridgeError, H256};

verus! {

/// A header of the external chain.
#[derive(Clone, Copy, Debug)]
pub struct Header {
    /// The digest of the other fields (see `header_bytes`); checked on import.
    pub hash: H256,
    pub parent_hash: H256,
    pub number: u64,
    pub difficulty: u128,
    pub timestamp: u64,
    /// Root of the tree of message commitments that this block emitted.
    pub receipts_root: H256,
}

/// The seal that a miner found for a header.
#[derive(Clone, Copy, Debug)]
pub struct PowSeal {
    pub nonce: u64,
}

/// One step of a Merkle path, from the leaf towards the root.
#[derive(Clone, Copy, Debug)]
pub struct ProofNode {
    pub sibling: H256,
    /// Whether the sibling stands left of the running hash.
    pub sibling_is_left: bool,
}

/// The root that a Merkle path reaches from a leaf.
pub open spec fn merkle_root(leaf: Seq<u8>, path: Seq<ProofNode>) -> Seq<u8>
    decreases path.len(),
{
    if path.len() == 0 {
        leaf
    } else {
        let below = merkle_root(leaf, path.drop_last());
        let n = path.last();
        if n.sibling_is_left {
            keccak_of(n.sibling@ + below)
        } else {
            keccak_of(below + n.sibling@)
        }
    }
}

/// The bytes a header's hash commits to: the parent hash, the number (8 bytes), the
/// difficulty (16 bytes) and the timestamp (8 bytes), all big-endian, then the
/// commitment root.
pub open spec fn header_bytes(h: Header) -> Seq<u8> {
    h.parent_hash@ + be_bytes(h.number as nat, 8) + be_bytes(h.difficulty as nat, 16) + be_bytes(h.timestamp as nat, 8)
        + h.receipts_root@
}

/// The value of a byte string read big-endian.
pub open spec fn be_value(s: Seq<u8>) -> nat
    decreases s.len(),
{
    if s.len() == 0 {
        0
    } else {
        be_value(s.drop_last()) * 256 + s.last() as nat
    }
}

/// The work a seal shows for a header hash: the leading 16 bytes of the digest of the
/// hash followed by the nonce (8 bytes, big-endian), read big-endian.
pub open spec fn spec_pow_value(hash: H256, nonce: u64) -> nat {
    be_value(keccak_of(hash@ + be_bytes(nonce as nat, 8)).take(16))
}

/// The proof-of-work rule: the header's hash is the digest of its fields, and the work
/// value of the seal, scaled by the declared difficulty, stays within the 128-bit
/// target space (a value of at most `(2^128 - 1) / difficulty`).
pub open spec fn pow_valid(h: Header, seal: PowSeal) -> bool {
    &&& h.hash@ == keccak_of(header_bytes(h))
    &&& spec_pow_value(h.hash, seal.nonce) * h.difficulty <= u128::MAX
}

spec fn pow256(n: nat) -> nat
    decreases n,
{
    if n == 0 {
        1
    } else {
        256 * pow256((n - 1) as nat)
    }
}

proof fn lemma_pow256_mono(i: nat, j: nat)
    requires
        i <= j,
    ensures
        pow256(i) <= pow256(j),
    decreases j - i,
{
    if i < j {
        lemma_pow256_mono(i, (j - 1) as nat);
    }
}

/// The digest of a header's fields.
pub fn header_hash(h: &Header) -> (r: H256)
    ensures
        r@ == keccak_of(header_bytes(*h)),
{
    let mut bytes: Vec<u8> = Vec::new();
    push_all(&mut bytes, &h.parent_hash);
    push_be(&mut bytes, h.number as u128, 8);
    push_be(&mut bytes, h.difficulty, 16);
    push_be(&mut bytes, h.timestamp as u128, 8);
    push_all(&mut bytes, &h.receipts_root);
    proof {
        assert(bytes@ =~= header_bytes(*h));
    }
    hash_bytes(&bytes)
}

/// The work value of `nonce` for the header hash `hash`.
pub fn pow_value(hash: &H256, nonce: u64) -> (r: u128)
    ensures
        r == spec_pow_value(*hash, nonce),
{
    let mut bytes: Vec<u8> = Vec::new();
    push_all(&mut bytes, hash);
    push_be(&mut bytes, nonce as u128, 8);
    let d = hash_bytes(&bytes);
    proof {
        assert(bytes@ =~= hash@ + be_bytes(nonce as nat, 8));
        reveal_with_fuel(pow256, 17);
        assert(pow256(16) == 0x1_0000_0000_0000_0000_0000_0000_0000_0000);
    }
    let mut acc: u128 = 0;
    let mut i: usize = 0;
    while i < 16
        invariant
            i <= 16,
            d@.len() == 32,
            acc == be_value(d@.take(i as int)),
            acc < pow256(i as nat),
            pow256(16) == 0x1_0000_0000_0000_0000_0000_0000_0000_0000,
        decreases 16 - i,
    {
        proof {
            lemma_pow256_mono((i + 1) as nat, 16);
            assert(pow256((i + 1) as nat) == 256 * pow256(i as nat));
            assert(d@.take(i + 1).drop_last() =~= d@.take(i as int));
        }
        acc = acc * 256 + d[i] as u128;
        i = i + 1;
    }
    acc
}

/// What the light client knows: the verified headers, oldest first, each the
/// child of the one before, and the work accumulated on them.
pub struct ClientState {
    pub headers: Seq<Header>,
    pub cumulative_difficulty: u128,
}

impl ClientState {
    /// Header `i` is the child of header `i - 1`.
    pub open spec fn linked(self, i: int) -> bool {
        self.headers[i].number == self.headers[i - 1].number + 1 && self.headers[i].parent_hash == self.headers[i - 1].hash
    }

    pub open spec fn wf(self) -> bool {
        &&& self.headers.len() >= 1
        &&& forall|i: int| 1 <= i < self.headers.len() ==> #[trigger] self.linked(i)
    }

    pub open spec fn latest(self) -> Header {
        self.headers.last()
    }

    pub open spec fn first(self) -> Header {
        self.headers[0]
    }

    /// The verified header at height `n`, for `first().number <= n <= latest().number`.
    pub open spec fn header_at(self, n: u64) -> Header {
        self.headers[n - self.first().number]
    }
}

/// The outcome of importing `h` with `seal`.
pub open spec fn spec_import(s: ClientState, h: Header, seal: PowSeal) -> Result<ClientState, BridgeError> {
    if !(h.parent_hash == s.latest().hash && h.number == s.latest().number + 1) {
        Err(BridgeError::NonContiguousParent)
    } else if !pow_valid(h, seal) {
        Err(BridgeError::InvalidProofOfWork)
    } else if h.difficulty == 0 || s.cumulative_difficulty + h.difficulty > u128::MAX {
        Err(BridgeError::StaleDifficulty)
    } else {
        Ok(ClientState {
            headers: s.headers.push(h),
            cumulative_difficulty: (s.cumulative_difficulty + h.difficulty) as u128,
        })
    }
}

/// The outcome of checking that `path` leads from `leaf` to the commitment root of
/// the verified header at height `header_ref`.
pub open spec fn spec_verify_inclusion(s: ClientState, leaf: Seq<u8>, path: Seq<ProofNode>, header_ref: u64) -> Result<(), BridgeError> {
    if header_ref > s.latest().number || header_ref < s.first().number {
        Err(BridgeError::HeaderNotVerified)
    } else if merkle_root(leaf, path) != s.header_at(header_ref).receipts_root@ {
        Err(BridgeError::InvalidProof)
    } else {
        Ok(())
    }
}

/// A successful import strictly raises the accumulated difficulty, never lowers
/// the verified height, and keeps the header chain linked.
pub proof fn lemma_import_monotone(s: ClientState, h: Header, seal: PowSeal)
    requires
        s.wf(),
        spec_import(s, h, seal) is Ok,
    ensures
        spec_import(s, h, seal)->Ok_0.wf(),
        spec_import(s, h, seal)->Ok_0.cumulative_difficulty > s.cumulative_difficulty,
        spec_import(s, h, seal)->Ok_0.latest().number > s.latest().number,
        spec_import(s, h, seal)->Ok_0.first() == s.first(),
        spec_import(s, h, seal)->Ok_0.headers.take(s.headers.len() as int) == s.headers,
{
    let t = spec_import(s, h, seal)->Ok_0;
    assert forall|i: int| 1 <= i < t.headers.len() implies #[trigger] t.linked(i) by {
        if i < s.headers.len() {
            assert(s.linked(i));
        }
    }
    assert(t.headers.take(s.headers.len() as int) =~= s.headers);
}

/// No inclusion proof is accepted against a header above the verified frontier,
/// whatever the leaf and the path.
pub proof fn lemma_inclusion_needs_verified_header(s: ClientState, leaf: Seq<u8>, path: Seq<ProofNode>, header_ref: u64)
    requires
        s.wf(),
        header_ref > s.latest().number,
    ensures
        spec_verify_inclusion(s, leaf, path, header_ref) == Err::<(), BridgeError>(BridgeError::HeaderNotVerified),
{
}

/// The root that `path` reaches from `leaf`.
pub fn compute_root(leaf: &H256, path: &Vec<ProofNode>) -> (r: H256)
    ensures
        r@ == merkle_root(leaf@, path@),
{
    let mut acc: H256 = *leaf;
    let mut i: usize = 0;
    while i < path.len()
        invariant
            i <= path@.len(),
            acc@ == merkle_root(leaf@, path@.take(i as int)),
        decreases path@.len() - i,
    {
        let n = path[i];
        if n.sibling_is_left {
            acc = hash_pair(&n.sibling, &acc);
        } else {
            acc = hash_pair(&acc, &n.sibling);
        }
        proof {
            assert(path@.take(i + 1).drop_last() =~= path@.take(i as int));
        }
        i = i + 1;
    }
    proof {
        assert(path@.take(path@.len() as int) =~= path@);
    }
    acc
}

proof fn lemma_heights(s: ClientState, i: int)
    requires
        s.wf(),
        0 <= i < s.headers.len(),
    ensures
        s.headers[i].number == s.first().number + i,
    decreases i,
{
    if i > 0 {
        lemma_heights(s, i - 1);
        assert(s.linked(i));
    }
}

/// An inclusion proof that holds against a state of the client still holds against
/// every later state, whose verified headers extend the earlier ones.
pub proof fn lemma_inclusion_stable(c: ClientState, c2: ClientState, leaf: Seq<u8>, path: Seq<ProofNode>, header_ref: u64)
    requires
        c.wf(),
        c2.wf(),
        c.headers.len() <= c2.headers.len(),
        c2.headers.take(c.headers.len() as int) == c.headers,
        spec_verify_inclusion(c, leaf, path, header_ref) is Ok,
    ensures
        spec_verify_inclusion(c2, leaf, path, header_ref) is Ok,
{
    assert(c2.headers[0] == c2.headers.take(c.headers.len() as int)[0]);
    lemma_heights(c, c.headers.len() - 1);
    lemma_heights(c2, c2.headers.len() - 1);
    let i = header_ref - c.first().number;
    assert(c2.headers[i] == c2.headers.take(c.headers.len() as int)[i]);
}

/// The light client: a chain of verified headers of the external chain, grown one
/// header at a time, against which inclusion proofs are checked.
pub struct LightClient {
    headers: Vec<Header>,
    cumulative_difficulty: u128,
}

impl View for LightClient {
    type V = ClientState;

    closed spec fn view(&self) -> ClientState {
        ClientState { headers: self.headers@, cumulative_difficulty: self.cumulative_difficulty }
    }
}

impl LightClient {
    pub closed spec fn wf(&self) -> bool {
        self@.wf()
    }

    /// A client whose only verified header is `initial_header`, with `initial_difficulty`
    /// as the work accumulated up to it.
    pub fn new(initial_header: Header, initial_difficulty: u128) -> (r: LightClient)
        ensures
            r.wf(),
            r@.headers == seq![initial_header],
            r@.cumulative_difficulty == initial_difficulty,
    {
        let mut headers: Vec<Header> = Vec::new();
        headers.push(initial_header);
        proof {
            assert(headers@ =~= seq![initial_header]);
        }
        LightClient { headers, cumulative_difficulty: initial_difficulty }
    }

    /// The most recent verified header.
    pub fn latest_verified_header(&self) -> (r: Header)
        requires
            self.wf(),
        ensures
            r == self@.latest(),
    {
        self.headers[self.headers.len() - 1]
    }

    /// The work accumulated on the verified chain.
    pub fn cumulative_difficulty(&self) -> (r: u128)
        ensures
            r == self@.cumulative_difficulty,
    {
        self.cumulative_difficulty
    }

    /// Imports `header` as the child of the latest verified header and returns the new
    /// verified height. A header whose hash is not the digest of its fields, or whose
    /// seal does not meet its difficulty, fails with `InvalidProofOfWork`. Only a child
    /// of the latest header can be imported: a child of an older header would lower the
    /// verified height. On failure nothing changes.
    pub fn import_header(&mut self, header: Header, seal: PowSeal) -> (r: Result<u64, BridgeError>)
        requires
            old(self).wf(),
        ensures
            final(self).wf(),
            match spec_import(old(self)@, header, seal) {
                Ok(s) => r == Ok::<u64, BridgeError>(header.number) && final(self)@ == s,
                Err(e) => r == Err::<u64, BridgeError>(e) && final(self)@ == old(self)@,
            },
    {
        let latest = self.latest_verified_header();
        if !hash_eq(&header.parent_hash, &latest.hash) || latest.number == u64::MAX || header.number != latest.number + 1 {
            return Err(BridgeError::NonContiguousParent);
        }
        let expected = header_hash(&header);
        proof {
            if expected@ == header.hash@ {
                assert(expected =~= header.hash);
            }
        }
        if !hash_eq(&expected, &header.hash) {
            return Err(BridgeError::InvalidProofOfWork);
        }
        let value = pow_value(&header.hash, seal.nonce);
        if value.checked_mul(header.difficulty).is_none() {
            return Err(BridgeError::InvalidProofOfWork);
        }
        if header.difficulty == 0 {
            return Err(BridgeError::StaleDifficulty);
        }
        match self.cumulative_difficulty.checked_add(header.difficulty) {
            None => Err(BridgeError::StaleDifficulty),
            Some(total) => {
                proof {
                    lemma_import_monotone(self@, header, seal);
                }
                self.headers.push(header);
                self.cumulative_difficulty = total;
                Ok(header.number)
            },
        }
    }

    /// Checks that `path` leads from `leaf` to the commitment root of the verified
    /// header at height `header_ref`.
    pub fn verify_inclusion(&self, leaf: &H256, path: &Vec<ProofNode>, header_ref: u64) -> (r: Result<(), BridgeError>)
        requires
            self.wf(),
        ensures
            r == spec_verify_inclusion(self@, leaf@, path@, header_ref),
    {
        let first = self.headers[0].number;
        let latest = self.latest_verified_header();
        if header_ref > latest.number || header_ref < first {
            return Err(BridgeError::HeaderNotVerified);
        }
        let len = self.headers.len();
        proof {
            lemma_heights(self@, len - 1);
        }
        let idx = (header_ref - first) as usize;
        proof {
            lemma_heights(self@, idx as int);
            assert(self@.header_at(header_ref) == self.headers@[idx as int]);
        }
        let root = self.headers[idx].receipts_root;
        let acc = compute_root(leaf, path);
        proof {
            if acc@ == root@ {
                assert(acc =~= root);
            }
        }
        if hash_eq(&acc, &root) {
            Ok(())
        } else {
            Err(BridgeError::InvalidProof)
        }
    }
}

} // verus!
