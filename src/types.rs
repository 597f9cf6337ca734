use vstd::prelude::*;

verus! {

/// A 20-byte external-chain contract address.
pub type Address = [u8; 20];

/// A 32-byte hash of the external chain.
pub type H256 = [u8; 32];

/// A parachain account identifier; the core makes no assumption on how it was derived.
pub type AccountId = [u8; 32];

/// An asset held in the ledger: the external chain's native coin, or a token contract.
#[allow(non_camel_case_types)]
#[derive(Clone, Copy, Debug)]
pub enum AssetId {
    ETH,
    Token(Address),
}

/// Every way in which a bridge operation can be rejected.
#[derive(Clone, Copy, Debug, PartialEq, Eq, Structural)]
pub enum BridgeError {
    InvalidProofOfWork,
    NonContiguousParent,
    StaleDifficulty,
    HeaderNotVerified,
    InvalidProof,
    InvalidSourceChannel,
    NonceReplay,
    NonceGap,
    InsufficientFunds,
    BalanceOverflow,
    InsufficientBalance,
    Unauthorized,
    InvalidConfig,
}

fn bytes_eq<const N: usize>(a: &[u8; N], b: &[u8; N]) -> (r: bool)
    ensures
        r == (*a == *b),
{
    let mut i: usize = 0;
    while i < N
        invariant
            i <= N,
            a@.len() == N,
            b@.len() == N,
            forall|j: int| 0 <= j < i ==> a@[j] == b@[j],
        decreases N - i,
    {
        if a[i] != b[i] {
            return false;
        }
        i = i + 1;
    }
    proof {
        assert(*a =~= *b);
    }
    true
}

/// Byte-for-byte equality of two addresses.
pub fn address_eq(a: &Address, b: &Address) -> (r: bool)
    ensures
        r == (*a == *b),
{
    bytes_eq(a, b)
}

/// Byte-for-byte equality of two hashes (also used for account identifiers).
pub fn hash_eq(a: &H256, b: &H256) -> (r: bool)
    ensures
        r == (*a == *b),
{
    bytes_eq(a, b)
}

/// Whether two asset identifiers name the same asset.
pub fn asset_eq(a: &AssetId, b: &AssetId) -> (r: bool)
    ensures
        r == (*a == *b),
{
    match (a, b) {
        (AssetId::ETH, AssetId::ETH) => true,
        (AssetId::Token(x), AssetId::Token(y)) => {
            address_eq(x, y)
        },
        _ => false,
    }
}

} // verus!
