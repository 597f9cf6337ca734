//! A trust-minimised bridge core between a parachain and a proof-of-work chain:
//! a light client over the external chain's headers, the basic and incentivized
//! message channels, and the asset ledger that delivered messages update.

mod bridge;
mod genesis;
mod hashing;
mod inbound;
mod ledger;
mod light_client;
mod outbound;
mod types;

pub use bridge::{addressed_to, config_invalid, App, AppRegistry, Bridge};
pub use genesis::{
    testnet_genesis, zero_header, GenesisConfig, BASIC_INBOUND_SOURCE, DOT_APP_ADDRESS, ERC20_APP_ADDRESS,
    ERC721_APP_ADDRESS, ETH_APP_ADDRESS, INCENTIVIZED_INBOUND_SOURCE, TESTNET_ENDOWMENT, TESTNET_FEE, TESTNET_INTERVAL,
    TESTNET_REWARD_FRACTION, ZERO_HASH,
};
pub use hashing::{be_bytes, hash_bytes, hash_pair, keccak_of};
pub use inbound::{
    lemma_replay_rejected, lemma_split_exact, message_bytes, message_leaf, reward_of, spec_message_leaf,
    spec_payout, spec_reward, spec_validate, validate_message, BasicInboundChannel, IncentivizedInboundChannel, Message,
    MessageProof,
};
pub use ledger::{
    balance_of, lemma_credit_debit_inverse, spec_credit, spec_debit, spec_seed, AssetLedger, BalanceKey, Balances,
    LedgerEntry,
};
pub use light_client::{
    compute_root, lemma_import_monotone, lemma_inclusion_needs_verified_header, lemma_inclusion_stable, merkle_root,
    be_value, header_bytes, header_hash, pow_valid, pow_value, spec_import, spec_pow_value, spec_verify_inclusion, ClientState, Header, LightClient, PowSeal, ProofNode,
};
pub use outbound::{commits_at, BasicOutboundChannel, Batch, IncentivizedOutboundChannel};
pub use types::{address_eq, asset_eq, hash_eq, AccountId, Address, AssetId, BridgeError, H256};
