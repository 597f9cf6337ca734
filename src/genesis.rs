use vstd::prelude::*;

use crate::light_client::Header;
use crate::types::{AccountId, Address, AssetId, H256};

verus! {

/// The external contract trusted by the basic inbound channel.
pub const BASIC_INBOUND_SOURCE: Address = [
    0xb1, 0x18, 0x5e, 0xde, 0x04, 0x20, 0x2f, 0xe6, 0x2d, 0x38,
    0xf5, 0xdb, 0x72, 0xf7, 0x1e, 0x38, 0xff, 0x3e, 0x83, 0x05,
];

/// The external contract trusted by the incentivized inbound channel.
pub const INCENTIVIZED_INBOUND_SOURCE: Address = [
    0x8c, 0xf6, 0x14, 0x79, 0x18, 0xa5, 0xcb, 0xb6, 0x72, 0x70,
    0x3f, 0x87, 0x9f, 0x38, 0x50, 0x36, 0xf8, 0x79, 0x3a, 0x24,
];

/// The external contract of the DOT application.
pub const DOT_APP_ADDRESS: Address = [
    0x3f, 0x83, 0x9e, 0x70, 0x11, 0x7c, 0x64, 0x74, 0x49, 0x30,
    0xde, 0x85, 0x67, 0xae, 0x7a, 0x53, 0x63, 0x48, 0x7c, 0xa3,
];

/// The external contract of the ETH application.
pub const ETH_APP_ADDRESS: Address = [
    0x3f, 0x08, 0x39, 0x38, 0x5d, 0xb9, 0xcb, 0xea, 0x8e, 0x73,
    0xad, 0xa6, 0xfa, 0x0c, 0xfe, 0x07, 0xe3, 0x21, 0xf6, 0x1d,
];

/// The external contract of the ERC-20 application.
pub const ERC20_APP_ADDRESS: Address = [
    0x44, 0x0e, 0xdf, 0xfa, 0x13, 0x52, 0xb1, 0x32, 0x27, 0xe8,
    0xee, 0x64, 0x6f, 0x3e, 0xa3, 0x74, 0x56, 0xde, 0xc7, 0x01,
];

/// The external contract of the ERC-721 application.
pub const ERC721_APP_ADDRESS: Address = [
    0xf6, 0x7e, 0xff, 0x52, 0x50, 0xcd, 0x97, 0x4e, 0x6e, 0x86,
    0xc9, 0xb5, 0x3d, 0xc5, 0x29, 0x09, 0x05, 0xbd, 0x89, 0x16,
];

/// The all-zero hash.
pub const ZERO_HASH: H256 = [
    0, 0, 0, 0, 0, 0, 0, 0, 0, 0, 0, 0, 0, 0, 0, 0,
    0, 0, 0, 0, 0, 0, 0, 0, 0, 0, 0, 0, 0, 0, 0, 0,
];

/// Batches are committed at every block on the local testnet.
pub const TESTNET_INTERVAL: u64 = 1;

/// Percentage of each incentivized fee paid to the delivering relayer on the local testnet.
pub const TESTNET_REWARD_FRACTION: u8 = 80;

/// Fee per incentivized outbound message on the local testnet: 0.01 of the native coin.
pub const TESTNET_FEE: u128 = 10_000_000_000_000_000;

/// Native-coin endowment of the funded test account: one whole coin.
pub const TESTNET_ENDOWMENT: u128 = 1_000_000_000_000_000_000;

/// The write-once parameters from which the bridge starts.
#[derive(Debug)]
pub struct GenesisConfig {
    pub basic_inbound_source: Address,
    pub basic_outbound_principal: AccountId,
    pub basic_outbound_interval: u64,
    pub incentivized_inbound_source: Address,
    pub reward_fraction: u8,
    pub treasury: AccountId,
    pub incentivized_outbound_fee: u128,
    pub incentivized_outbound_interval: u64,
    pub balances: Vec<(AssetId, AccountId, u128)>,
    pub initial_header: Header,
    pub initial_difficulty: u128,
    pub dot_app: Address,
    pub eth_app: Address,
    pub erc20_app: Address,
    pub erc721_app: Address,
}

/// The all-zero header the local testnet starts from.
pub open spec fn zero_header() -> Header {
    Header {
        hash: ZERO_HASH,
        parent_hash: ZERO_HASH,
        number: 0,
        difficulty: 0,
        timestamp: 0,
        receipts_root: ZERO_HASH,
    }
}

/// The bridge parameters of the local testnet: `principal` may use the basic outbound
/// channel, `funded` holds one coin of the native asset, and `treasury` receives the
/// part of each fee that relayers do not.
pub fn testnet_genesis(principal: AccountId, funded: AccountId, treasury: AccountId) -> (r: GenesisConfig)
    ensures
        r.basic_inbound_source == BASIC_INBOUND_SOURCE,
        r.basic_outbound_principal == principal,
        r.basic_outbound_interval == TESTNET_INTERVAL,
        r.incentivized_inbound_source == INCENTIVIZED_INBOUND_SOURCE,
        r.reward_fraction == TESTNET_REWARD_FRACTION,
        r.treasury == treasury,
        r.incentivized_outbound_fee == TESTNET_FEE,
        r.incentivized_outbound_interval == TESTNET_INTERVAL,
        r.balances@ == seq![(AssetId::ETH, funded, TESTNET_ENDOWMENT)],
        r.initial_header == zero_header(),
        r.initial_difficulty == 0,
        r.dot_app == DOT_APP_ADDRESS,
        r.eth_app == ETH_APP_ADDRESS,
        r.erc20_app == ERC20_APP_ADDRESS,
        r.erc721_app == ERC721_APP_ADDRESS,
{
    let mut balances: Vec<(AssetId, AccountId, u128)> = Vec::new();
    balances.push((AssetId::ETH, funded, TESTNET_ENDOWMENT));
    proof {
        assert(balances@ =~= seq![(AssetId::ETH, funded, TESTNET_ENDOWMENT)]);
    }
    GenesisConfig {
        basic_inbound_source: BASIC_INBOUND_SOURCE,
        basic_outbound_principal: principal,
        basic_outbound_interval: TESTNET_INTERVAL,
        incentivized_inbound_source: INCENTIVIZED_INBOUND_SOURCE,
        reward_fraction: TESTNET_REWARD_FRACTION,
        treasury,
        incentivized_outbound_fee: TESTNET_FEE,
        incentivized_outbound_interval: TESTNET_INTERVAL,
        balances,
        initial_header: Header {
            hash: ZERO_HASH,
            parent_hash: ZERO_HASH,
            number: 0,
            difficulty: 0,
            timestamp: 0,
            receipts_root: ZERO_HASH,
        },
        initial_difficulty: 0,
        dot_app: DOT_APP_ADDRESS,
        eth_app: ETH_APP_ADDRESS,
        erc20_app: ERC20_APP_ADDRESS,
        erc721_app: ERC721_APP_ADDRESS,
    }
}

} // verus!
