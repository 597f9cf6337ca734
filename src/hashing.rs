use vstd::prelude::*;

use crate::types::H256;

verus! {

/// The Keccak-256 digest of a byte string.
pub uninterp spec fn keccak_of(data: Seq<u8>) -> Seq<u8>;

/// Relies on sp_core's `KeccakHasher::hash`: the Keccak-256 digest of `data`,
/// which depends on the bytes alone.
#[verifier::external_body]
fn keccak_256(data: &[u8]) -> (r: H256)
    ensures
        r@ == keccak_of(data@),
{
    <sp_core::KeccakHasher as sp_core::Hasher>::hash(data).0
}

/// The `len` low bytes of `n`, most significant first.
pub open spec fn be_bytes(n: nat, len: nat) -> Seq<u8>
    decreases len,
{
    if len == 0 {
        Seq::empty()
    } else {
        be_bytes(n / 256, (len - 1) as nat).push((n % 256) as u8)
    }
}

pub(crate) fn push_be(out: &mut Vec<u8>, n: u128, len: usize)
    ensures
        final(out)@ == old(out)@ + be_bytes(n as nat, len as nat),
    decreases len,
{
    if len == 0 {
        proof {
            assert(old(out)@ + be_bytes(n as nat, 0) =~= old(out)@);
        }
        return;
    }
    push_be(out, n / 256, len - 1);
    out.push((n % 256) as u8);
    proof {
        assert(out@ =~= old(out)@ + be_bytes(n as nat, len as nat));
    }
}

pub(crate) fn push_all(out: &mut Vec<u8>, a: &H256)
    ensures
        final(out)@ == old(out)@ + a@,
{
    let ghost head = out@;
    let mut i: usize = 0;
    while i < 32
        invariant
            i <= 32,
            out@ == head + a@.take(i as int),
        decreases 32 - i,
    {
        out.push(a[i]);
        i = i + 1;
        proof {
            assert(out@ =~= head + a@.take(i as int));
        }
    }
    proof {
        assert(a@.take(32) =~= a@);
    }
}

/// The digest of `data` as a 32-byte hash.
pub fn hash_bytes(data: &Vec<u8>) -> (r: H256)
    ensures
        r@ == keccak_of(data@),
{
    keccak_256(data.as_slice())
}

/// The digest of `left` followed by `right`: one inner node of a Merkle tree.
pub fn hash_pair(left: &H256, right: &H256) -> (r: H256)
    ensures
        r@ == keccak_of(left@ + right@),
{
    let mut buf: Vec<u8> = Vec::new();
    let mut i: usize = 0;
    while i < 32
        invariant
            i <= 32,
            buf@ == left@.take(i as int),
        decreases 32 - i,
    {
        buf.push(left[i]);
        i = i + 1;
        proof {
            assert(buf@ =~= left@.take(i as int));
        }
    }
    let mut j: usize = 0;
    while j < 32
        invariant
            j <= 32,
            buf@ == left@ + right@.take(j as int),
        decreases 32 - j,
    {
        proof {
            assert(left@.take(32) =~= left@);
        }
        buf.push(right[j]);
        j = j + 1;
        proof {
            assert(buf@ =~= left@ + right@.take(j as int));
        }
    }
    proof {
        assert(right@.take(32) =~= right@);
    }
    keccak_256(buf.as_slice())
}

} // verus!
