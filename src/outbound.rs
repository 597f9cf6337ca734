use vstd::prelude::*;

use crate::ledger::{balance_of, spec_debit, AssetLedger};
use crate::types::{hash_eq, AccountId, AssetId, BridgeError};

verus! {

/// A sealed batch of outbound messages, ready for relayers to carry to the external chain.
#[derive(Debug)]
pub struct Batch {
    pub nonce: u64,
    pub payloads: Vec<Vec<u8>>,
    /// The fees collected for the batch, claimable by the relayer that delivers it.
    pub fees: u128,
}

/// Whether a batch is committed at `block_number`.
pub open spec fn commits_at(interval: u64, block_number: u64) -> bool {
    block_number % interval == 0
}

/// Unmetered outbound channel: only its principal may enqueue, and the pending
/// messages are sealed into a batch at every block whose height is a multiple of
/// the interval.
pub struct BasicOutboundChannel {
    principal: AccountId,
    interval: u64,
    nonce: u64,
    pending: Vec<Vec<u8>>,
}

impl BasicOutboundChannel {
    pub closed spec fn principal_spec(&self) -> AccountId {
        self.principal
    }

    pub closed spec fn interval_spec(&self) -> u64 {
        self.interval
    }

    pub closed spec fn nonce_spec(&self) -> u64 {
        self.nonce
    }

    pub closed spec fn pending_spec(&self) -> Seq<Vec<u8>> {
        self.pending@
    }

    pub closed spec fn wf(&self) -> bool {
        self.interval > 0
    }

    /// A channel for `principal` that commits every `interval` blocks; fails with
    /// `InvalidConfig` where the interval is zero.
    pub fn new(principal: AccountId, interval: u64) -> (r: Result<BasicOutboundChannel, BridgeError>)
        ensures
            interval == 0 <==> r is Err,
            r is Err ==> r == Err::<BasicOutboundChannel, BridgeError>(BridgeError::InvalidConfig),
            r matches Ok(ch) ==> ch.wf() && ch.principal_spec() == principal && ch.interval_spec() == interval
                && ch.nonce_spec() == 0 && ch.pending_spec().len() == 0,
    {
        if interval == 0 {
            return Err(BridgeError::InvalidConfig);
        }
        Ok(BasicOutboundChannel { principal, interval, nonce: 0, pending: Vec::new() })
    }

    /// The nonce of the last committed batch; zero before the first.
    pub fn nonce(&self) -> (r: u64)
        ensures
            r == self.nonce_spec(),
    {
        self.nonce
    }

    /// Appends `payload` to the pending batch where `caller` is the principal; fails
    /// with `Unauthorized`, changing nothing, for anyone else.
    pub fn enqueue(&mut self, caller: &AccountId, payload: Vec<u8>) -> (r: Result<(), BridgeError>)
        ensures
            old(self).wf() ==> final(self).wf(),
            final(self).principal_spec() == old(self).principal_spec(),
            final(self).interval_spec() == old(self).interval_spec(),
            final(self).nonce_spec() == old(self).nonce_spec(),
            *caller == old(self).principal_spec() ==> r is Ok && final(self).pending_spec() == old(self).pending_spec().push(payload),
            *caller != old(self).principal_spec() ==> r == Err::<(), BridgeError>(BridgeError::Unauthorized)
                && final(self).pending_spec() == old(self).pending_spec(),
    {
        if !hash_eq(caller, &self.principal) {
            return Err(BridgeError::Unauthorized);
        }
        self.pending.push(payload);
        Ok(())
    }

    /// Block processing at `block_number`: at a multiple of the interval the pending
    /// messages, possibly none, are sealed under the next nonce and returned. Nothing
    /// is sealed at other heights, nor once the nonce space is spent.
    pub fn commit(&mut self, block_number: u64) -> (r: Option<Batch>)
        requires
            old(self).wf(),
        ensures
            final(self).wf(),
            final(self).principal_spec() == old(self).principal_spec(),
            final(self).interval_spec() == old(self).interval_spec(),
            (commits_at(old(self).interval_spec(), block_number) && old(self).nonce_spec() < u64::MAX) <==> r is Some,
            r matches Some(b) ==> b.nonce == old(self).nonce_spec() + 1 && b.payloads@ == old(self).pending_spec()
                && b.fees == 0 && final(self).nonce_spec() == b.nonce && final(self).pending_spec().len() == 0,
            r is None ==> final(self).nonce_spec() == old(self).nonce_spec() && final(self).pending_spec() == old(self).pending_spec(),
    {
        if block_number % self.interval != 0 || self.nonce == u64::MAX {
            return None;
        }
        let mut payloads: Vec<Vec<u8>> = Vec::new();
        std::mem::swap(&mut payloads, &mut self.pending);
        self.nonce = self.nonce + 1;
        Some(Batch { nonce: self.nonce, payloads, fees: 0 })
    }
}

/// Metered outbound channel: anyone may enqueue by paying the fee in the native asset;
/// the fees are held with the pending batch and sealed with it.
pub struct IncentivizedOutboundChannel {
    fee: u128,
    interval: u64,
    nonce: u64,
    pending: Vec<Vec<u8>>,
    pending_fees: u128,
}

impl IncentivizedOutboundChannel {
    pub closed spec fn fee_spec(&self) -> u128 {
        self.fee
    }

    pub closed spec fn interval_spec(&self) -> u64 {
        self.interval
    }

    pub closed spec fn nonce_spec(&self) -> u64 {
        self.nonce
    }

    pub closed spec fn pending_spec(&self) -> Seq<Vec<u8>> {
        self.pending@
    }

    pub closed spec fn pending_fees_spec(&self) -> u128 {
        self.pending_fees
    }

    pub closed spec fn wf(&self) -> bool {
        self.interval > 0
    }

    /// A channel that charges `fee` per message and commits every `interval` blocks;
    /// fails with `InvalidConfig` where the interval is zero.
    pub fn new(fee: u128, interval: u64) -> (r: Result<IncentivizedOutboundChannel, BridgeError>)
        ensures
            interval == 0 <==> r is Err,
            r is Err ==> r == Err::<IncentivizedOutboundChannel, BridgeError>(BridgeError::InvalidConfig),
            r matches Ok(ch) ==> ch.wf() && ch.fee_spec() == fee && ch.interval_spec() == interval && ch.nonce_spec() == 0
                && ch.pending_spec().len() == 0 && ch.pending_fees_spec() == 0,
    {
        if interval == 0 {
            return Err(BridgeError::InvalidConfig);
        }
        Ok(IncentivizedOutboundChannel { fee, interval, nonce: 0, pending: Vec::new(), pending_fees: 0 })
    }

    /// The nonce of the last committed batch; zero before the first.
    pub fn nonce(&self) -> (r: u64)
        ensures
            r == self.nonce_spec(),
    {
        self.nonce
    }

    /// The fee charged per message.
    pub fn fee(&self) -> (r: u128)
        ensures
            r == self.fee_spec(),
    {
        self.fee
    }

    /// Debits the fee from `caller` and appends `payload` to the pending batch. Fails
    /// with `InsufficientFunds` where the caller cannot cover the fee, and with
    /// `BalanceOverflow` where the batch's fees would not fit; then nothing changes.
    pub fn enqueue(&mut self, ledger: &mut AssetLedger, caller: &AccountId, payload: Vec<u8>) -> (r: Result<(), BridgeError>)
        requires
            old(ledger).wf(),
        ensures
            final(ledger).wf(),
            old(self).wf() ==> final(self).wf(),
            final(self).fee_spec() == old(self).fee_spec(),
            final(self).interval_spec() == old(self).interval_spec(),
            final(self).nonce_spec() == old(self).nonce_spec(),
            ({
                let k = (AssetId::ETH, *caller);
                if old(self).fee_spec() > balance_of(old(ledger)@, k) {
                    r == Err::<(), BridgeError>(BridgeError::InsufficientFunds) && final(ledger)@ == old(ledger)@
                        && final(self).pending_spec() == old(self).pending_spec()
                        && final(self).pending_fees_spec() == old(self).pending_fees_spec()
                } else if old(self).pending_fees_spec() + old(self).fee_spec() > u128::MAX {
                    r == Err::<(), BridgeError>(BridgeError::BalanceOverflow) && final(ledger)@ == old(ledger)@
                        && final(self).pending_spec() == old(self).pending_spec()
                        && final(self).pending_fees_spec() == old(self).pending_fees_spec()
                } else {
                    r is Ok && final(ledger)@ == spec_debit(old(ledger)@, k, old(self).fee_spec())->Ok_0
                        && final(self).pending_spec() == old(self).pending_spec().push(payload)
                        && final(self).pending_fees_spec() == old(self).pending_fees_spec() + old(self).fee_spec()
                }
            }),
    {
        let eth = AssetId::ETH;
        let balance = ledger.balance(&eth, caller);
        if self.fee > balance {
            return Err(BridgeError::InsufficientFunds);
        }
        let total = match self.pending_fees.checked_add(self.fee) {
            Some(t) => t,
            None => {
                return Err(BridgeError::BalanceOverflow);
            },
        };
        let _ = ledger.debit(&eth, caller, self.fee);
        self.pending.push(payload);
        self.pending_fees = total;
        Ok(())
    }

    /// Block processing at `block_number`: at a multiple of the interval the pending
    /// messages and their fees are sealed under the next nonce and returned. Nothing is
    /// sealed at other heights, nor once the nonce space is spent.
    pub fn commit(&mut self, block_number: u64) -> (r: Option<Batch>)
        requires
            old(self).wf(),
        ensures
            final(self).wf(),
            final(self).fee_spec() == old(self).fee_spec(),
            final(self).interval_spec() == old(self).interval_spec(),
            (commits_at(old(self).interval_spec(), block_number) && old(self).nonce_spec() < u64::MAX) <==> r is Some,
            r matches Some(b) ==> b.nonce == old(self).nonce_spec() + 1 && b.payloads@ == old(self).pending_spec()
                && b.fees == old(self).pending_fees_spec() && final(self).nonce_spec() == b.nonce
                && final(self).pending_spec().len() == 0 && final(self).pending_fees_spec() == 0,
            r is None ==> final(self).nonce_spec() == old(self).nonce_spec() && final(self).pending_spec() == old(self).pending_spec()
                && final(self).pending_fees_spec() == old(self).pending_fees_spec(),
    {
        if block_number % self.interval != 0 || self.nonce == u64::MAX {
            return None;
        }
        let mut payloads: Vec<Vec<u8>> = Vec::new();
        std::mem::swap(&mut payloads, &mut self.pending);
        let fees = self.pending_fees;
        self.pending_fees = 0;
        self.nonce = self.nonce + 1;
        Some(Batch { nonce: self.nonce, payloads, fees })
    }
}

} // verus!
