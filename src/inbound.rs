use vstd::prelude::*;

use crate::hashing::{be_bytes, hash_bytes, keccak_of, push_be};
use crate::ledger::{balance_of, spec_credit, AssetLedger, Balances};
use crate::light_client::{lemma_inclusion_stable, spec_verify_inclusion, ClientState, LightClient, ProofNode};
use crate::types::{address_eq, hash_eq, AccountId, Address, AssetId, BridgeError, H256};

verus! {

/// A message relayed from the external chain.
#[derive(Clone, Debug)]
pub struct Message {
    /// The external contract that emitted the message.
    pub source_channel: Address,
    pub nonce: u64,
    /// Opaque bytes addressed to a bridge application.
    pub payload: Vec<u8>,
    /// The fee paid for the message on the far side; read by the incentivized channel.
    pub fee: u128,
}

/// The bytes that the external channel commits to for a message: the source contract,
/// the nonce in 8 bytes and the fee in 16 bytes, both big-endian, then the payload.
pub open spec fn message_bytes(m: Message) -> Seq<u8> {
    m.source_channel@ + be_bytes(m.nonce as nat, 8) + be_bytes(m.fee as nat, 16) + m.payload@
}

/// The leaf under which a message is committed in a block's message tree.
pub open spec fn spec_message_leaf(m: Message) -> Seq<u8> {
    keccak_of(message_bytes(m))
}

/// The digest of a message's committed bytes.
pub fn message_leaf(message: &Message) -> (r: H256)
    ensures
        r@ == spec_message_leaf(*message),
{
    let mut bytes: Vec<u8> = Vec::new();
    let mut i: usize = 0;
    while i < 20
        invariant
            i <= 20,
            bytes@ == message.source_channel@.take(i as int),
        decreases 20 - i,
    {
        bytes.push(message.source_channel[i]);
        i = i + 1;
        proof {
            assert(bytes@ =~= message.source_channel@.take(i as int));
        }
    }
    proof {
        assert(message.source_channel@.take(20) =~= message.source_channel@);
    }
    push_be(&mut bytes, message.nonce as u128, 8);
    push_be(&mut bytes, message.fee, 16);
    let mut j: usize = 0;
    let ghost head = bytes@;
    while j < message.payload.len()
        invariant
            j <= message.payload@.len(),
            bytes@ == head + message.payload@.take(j as int),
        decreases message.payload@.len() - j,
    {
        bytes.push(message.payload[j]);
        j = j + 1;
        proof {
            assert(bytes@ =~= head + message.payload@.take(j as int));
        }
    }
    proof {
        assert(message.payload@.take(message.payload@.len() as int) =~= message.payload@);
        assert(bytes@ =~= message_bytes(*message));
    }
    hash_bytes(&bytes)
}

/// Evidence that a message was emitted in a verified block: a Merkle path from the
/// message's leaf to the commitment root of the header at `header_ref`.
#[derive(Clone, Debug)]
pub struct MessageProof {
    pub header_ref: u64,
    pub path: Vec<ProofNode>,
}

/// The outcome of the checks that every inbound channel makes, in order: the source,
/// the proof, the nonce.
pub open spec fn spec_validate(
    source_channel: Address,
    last_nonce: u64,
    c: ClientState,
    m: Message,
    p: MessageProof,
) -> Result<(), BridgeError> {
    if m.source_channel != source_channel {
        Err(BridgeError::InvalidSourceChannel)
    } else if spec_verify_inclusion(c, spec_message_leaf(m), p.path@, p.header_ref) is Err {
        spec_verify_inclusion(c, spec_message_leaf(m), p.path@, p.header_ref)
    } else if m.nonce <= last_nonce {
        Err(BridgeError::NonceReplay)
    } else if m.nonce != last_nonce + 1 {
        Err(BridgeError::NonceGap)
    } else {
        Ok(())
    }
}

/// Checks the source, the inclusion proof and the nonce of an inbound message.
pub fn validate_message(
    source_channel: &Address,
    last_nonce: u64,
    client: &LightClient,
    message: &Message,
    proof: &MessageProof,
) -> (r: Result<(), BridgeError>)
    requires
        client.wf(),
    ensures
        r == spec_validate(*source_channel, last_nonce, client@, *message, *proof),
{
    if !address_eq(&message.source_channel, source_channel) {
        return Err(BridgeError::InvalidSourceChannel);
    }
    let leaf = message_leaf(message);
    match client.verify_inclusion(&leaf, &proof.path, proof.header_ref) {
        Err(e) => Err(e),
        Ok(()) => {
            if message.nonce <= last_nonce {
                Err(BridgeError::NonceReplay)
            } else if message.nonce != last_nonce + 1 {
                Err(BridgeError::NonceGap)
            } else {
                Ok(())
            }
        },
    }
}

/// Accepted nonces run without gap or repeat: an accepted message carries the nonce
/// one above the last, and submitting it again with the same proof, once the channel
/// has reached that nonce or any later one and against the same or any later state of
/// the light client, fails with `NonceReplay`.
pub proof fn lemma_replay_rejected(
    source_channel: Address,
    last_nonce: u64,
    c: ClientState,
    c2: ClientState,
    m: Message,
    p: MessageProof,
    later_nonce: u64,
)
    requires
        c.wf(),
        c2.wf(),
        c.headers.len() <= c2.headers.len(),
        c2.headers.take(c.headers.len() as int) == c.headers,
        spec_validate(source_channel, last_nonce, c, m, p) is Ok,
        later_nonce >= m.nonce,
    ensures
        m.nonce == last_nonce + 1,
        spec_validate(source_channel, later_nonce, c2, m, p) == Err::<(), BridgeError>(BridgeError::NonceReplay),
{
    lemma_inclusion_stable(c, c2, spec_message_leaf(m), p.path@, p.header_ref);
}

/// Unmetered inbound channel that accepts messages from one trusted external contract.
pub struct BasicInboundChannel {
    source_channel: Address,
    nonce: u64,
}

impl BasicInboundChannel {
    pub closed spec fn source_channel_spec(&self) -> Address {
        self.source_channel
    }

    pub closed spec fn nonce_spec(&self) -> u64 {
        self.nonce
    }

    /// A channel that trusts `source_channel` and has accepted nothing yet.
    pub fn new(source_channel: Address) -> (r: BasicInboundChannel)
        ensures
            r.source_channel_spec() == source_channel,
            r.nonce_spec() == 0,
    {
        BasicInboundChannel { source_channel, nonce: 0 }
    }

    /// The nonce of the last accepted message; zero before the first.
    pub fn nonce(&self) -> (r: u64)
        ensures
            r == self.nonce_spec(),
    {
        self.nonce
    }

    /// Accepts `message` where it comes from the trusted contract, is proved included
    /// in a verified header and carries the next nonce; on failure nothing changes.
    pub fn submit(&mut self, client: &LightClient, message: &Message, proof: &MessageProof) -> (r: Result<(), BridgeError>)
        requires
            client.wf(),
        ensures
            r == spec_validate(old(self).source_channel_spec(), old(self).nonce_spec(), client@, *message, *proof),
            final(self).source_channel_spec() == old(self).source_channel_spec(),
            final(self).nonce_spec() == (if r is Ok { message.nonce } else { old(self).nonce_spec() }),
    {
        let r = validate_message(&self.source_channel, self.nonce, client, message, proof);
        if r.is_ok() {
            self.nonce = message.nonce;
        }
        r
    }
}

/// The relayer's share of `fee` at `reward_fraction` percent, rounded down so that
/// any fraction of a unit goes to the treasury.
pub open spec fn spec_reward(fee: u128, reward_fraction: u8) -> int {
    fee * reward_fraction / 100
}

/// The ledger after paying `reward` to the relayer and the rest of `fee` to the treasury.
pub open spec fn spec_payout(m: Balances, fee: u128, reward: u128, relayer: AccountId, treasury: AccountId) -> Result<Balances, BridgeError> {
    match spec_credit(m, (AssetId::ETH, relayer), reward) {
        Err(e) => Err(e),
        Ok(m1) => spec_credit(m1, (AssetId::ETH, treasury), (fee - reward) as u128),
    }
}

/// The relayer's reward: exact, at most the fee, and never rounded in the relayer's favour.
pub fn reward_of(fee: u128, reward_fraction: u8) -> (r: u128)
    requires
        reward_fraction <= 100,
    ensures
        r == spec_reward(fee, reward_fraction),
        r <= fee,
{
    let q = fee / 100;
    let rem = fee % 100;
    let pct = reward_fraction as u128;
    proof {
        lemma_reward_parts(fee, reward_fraction);
    }
    q * pct + rem * pct / 100
}

proof fn lemma_reward_parts(fee: u128, reward_fraction: u8)
    requires
        reward_fraction <= 100,
    ensures
        (fee / 100) * reward_fraction + (fee % 100) * reward_fraction / 100 == spec_reward(fee, reward_fraction),
        spec_reward(fee, reward_fraction) <= fee,
        (fee / 100) * reward_fraction <= fee,
        (fee % 100) * reward_fraction < 10000,
{
    let f = fee as int;
    let q = f / 100;
    let r = f % 100;
    let p = reward_fraction as int;
    assert(f == 100 * q + r && 0 <= r < 100 && q >= 0) by (nonlinear_arith)
        requires q == f / 100, r == f % 100, f >= 0;
    assert(f * p == 100 * (q * p) + r * p) by (nonlinear_arith)
        requires f == 100 * q + r;
    assert((100 * (q * p) + r * p) / 100 == q * p + (r * p) / 100) by (nonlinear_arith)
        requires r * p >= 0, q * p >= 0;
    assert(f * p / 100 <= f) by (nonlinear_arith)
        requires 0 <= p <= 100, f >= 0;
    assert(q * p <= f) by (nonlinear_arith)
        requires 0 <= p <= 100, f == 100 * q + r, q >= 0, r >= 0;
    assert(r * p < 10000) by (nonlinear_arith)
        requires 0 <= p <= 100, 0 <= r < 100;
}

/// The split of every fee is exact: the reward and the treasury's remainder add up to
/// the fee, and the reward never exceeds the fee's exact share.
pub proof fn lemma_split_exact(fee: u128, reward_fraction: u8)
    requires
        reward_fraction <= 100,
    ensures
        0 <= spec_reward(fee, reward_fraction) <= fee,
        spec_reward(fee, reward_fraction) + (fee - spec_reward(fee, reward_fraction)) == fee,
        spec_reward(fee, reward_fraction) * 100 <= fee * reward_fraction,
{
    lemma_reward_parts(fee, reward_fraction);
    let p = reward_fraction as int;
    assert(fee * p >= 0) by (nonlinear_arith)
        requires fee >= 0, p >= 0;
    assert((fee * p / 100) * 100 <= fee * p) by (nonlinear_arith)
        requires fee * p >= 0;
}

/// Metered inbound channel: like the basic one, and on delivery it pays the relayer
/// its share of the message's fee and the treasury the rest.
pub struct IncentivizedInboundChannel {
    source_channel: Address,
    nonce: u64,
    reward_fraction: u8,
    treasury: AccountId,
}

impl IncentivizedInboundChannel {
    pub closed spec fn source_channel_spec(&self) -> Address {
        self.source_channel
    }

    pub closed spec fn nonce_spec(&self) -> u64 {
        self.nonce
    }

    pub closed spec fn reward_fraction_spec(&self) -> u8 {
        self.reward_fraction
    }

    pub closed spec fn treasury_spec(&self) -> AccountId {
        self.treasury
    }

    pub closed spec fn wf(&self) -> bool {
        self.reward_fraction <= 100
    }

    /// A channel that trusts `source_channel` and pays relayers `reward_fraction`
    /// percent of each fee; fails with `InvalidConfig` where the fraction exceeds 100.
    pub fn new(source_channel: Address, reward_fraction: u8, treasury: AccountId) -> (r: Result<IncentivizedInboundChannel, BridgeError>)
        ensures
            reward_fraction > 100 <==> r is Err,
            r is Err ==> r == Err::<IncentivizedInboundChannel, BridgeError>(BridgeError::InvalidConfig),
            r matches Ok(ch) ==> ch.wf() && ch.source_channel_spec() == source_channel && ch.nonce_spec() == 0
                && ch.reward_fraction_spec() == reward_fraction && ch.treasury_spec() == treasury,
    {
        if reward_fraction > 100 {
            return Err(BridgeError::InvalidConfig);
        }
        Ok(IncentivizedInboundChannel { source_channel, nonce: 0, reward_fraction, treasury })
    }

    /// The nonce of the last accepted message; zero before the first.
    pub fn nonce(&self) -> (r: u64)
        ensures
            r == self.nonce_spec(),
    {
        self.nonce
    }

    /// Accepts `message` as the basic channel does, then credits the relayer its
    /// reward and the treasury the remainder of the fee, in the native asset. Any
    /// failure, an overflowing credit included, leaves the channel and the ledger
    /// as they were.
    pub fn submit(
        &mut self,
        client: &LightClient,
        ledger: &mut AssetLedger,
        message: &Message,
        proof: &MessageProof,
        relayer: &AccountId,
    ) -> (r: Result<(), BridgeError>)
        requires
            old(self).wf(),
            client.wf(),
            old(ledger).wf(),
        ensures
            final(self).wf(),
            final(ledger).wf(),
            final(self).source_channel_spec() == old(self).source_channel_spec(),
            final(self).reward_fraction_spec() == old(self).reward_fraction_spec(),
            final(self).treasury_spec() == old(self).treasury_spec(),
            ({
                let v = spec_validate(old(self).source_channel_spec(), old(self).nonce_spec(), client@, *message, *proof);
                let pay = spec_payout(
                    old(ledger)@,
                    message.fee,
                    spec_reward(message.fee, old(self).reward_fraction_spec()) as u128,
                    *relayer,
                    old(self).treasury_spec(),
                );
                if v is Err {
                    r == v && final(self).nonce_spec() == old(self).nonce_spec() && final(ledger)@ == old(ledger)@
                } else if pay is Err {
                    r == Err::<(), BridgeError>(pay->Err_0) && final(self).nonce_spec() == old(self).nonce_spec()
                        && final(ledger)@ == old(ledger)@
                } else {
                    r is Ok && final(self).nonce_spec() == message.nonce && final(ledger)@ == pay->Ok_0
                }
            }),
    {
        let v = validate_message(&self.source_channel, self.nonce, client, message, proof);
        if v.is_err() {
            return v;
        }
        let reward = reward_of(message.fee, self.reward_fraction);
        let remainder = message.fee - reward;
        let eth = AssetId::ETH;
        let relayer_balance = ledger.balance(&eth, relayer);
        if relayer_balance.checked_add(reward).is_none() {
            return Err(BridgeError::BalanceOverflow);
        }
        // The treasury's balance once the relayer has been paid.
        let treasury_balance = if hash_eq(relayer, &self.treasury) {
            relayer_balance + reward
        } else {
            ledger.balance(&eth, &self.treasury)
        };
        if treasury_balance.checked_add(remainder).is_none() {
            return Err(BridgeError::BalanceOverflow);
        }
        let _ = ledger.credit(&eth, relayer, reward);
        let _ = ledger.credit(&eth, &self.treasury, remainder);
        self.nonce = message.nonce;
        Ok(())
    }
}

} // verus!
