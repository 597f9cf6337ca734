use snowbridge::{
    compute_root, hash_bytes, header_hash, message_leaf, pow_value, hash_pair, reward_of, testnet_genesis, App, AssetId, AssetLedger, BasicInboundChannel,
    BasicOutboundChannel, Bridge, BridgeError, GenesisConfig, Header, IncentivizedInboundChannel,
    IncentivizedOutboundChannel, LightClient, Message, MessageProof, PowSeal, ProofNode, BASIC_INBOUND_SOURCE,
    ETH_APP_ADDRESS, INCENTIVIZED_INBOUND_SOURCE, TESTNET_ENDOWMENT, TESTNET_FEE,
};

const ALICE: [u8; 32] = [1u8; 32];
const BOB: [u8; 32] = [2u8; 32];
const FERDIE: [u8; 32] = [6u8; 32];
const TREASURY: [u8; 32] = [9u8; 32];

fn header(number: u64, hash: u8, parent: u8, difficulty: u128, root: [u8; 32]) -> Header {
    Header {
        hash: [hash; 32],
        parent_hash: [parent; 32],
        number,
        difficulty,
        timestamp: 0,
        receipts_root: root,
    }
}

/// The child of `parent` with the given difficulty and root, carrying its true hash.
fn child_of(parent: &Header, difficulty: u128, root: [u8; 32]) -> Header {
    let mut h = header(parent.number + 1, 0, 0, difficulty, root);
    h.parent_hash = parent.hash;
    h.timestamp = parent.timestamp + 12;
    h.hash = header_hash(&h);
    h
}

/// The first nonce whose work meets `h`'s difficulty.
fn mine(h: &Header) -> PowSeal {
    let mut nonce: u64 = 0;
    while pow_value(&h.hash, nonce).checked_mul(h.difficulty).is_none() {
        nonce += 1;
    }
    PowSeal { nonce }
}

/// The first nonce whose work does not meet `h`'s difficulty.
fn fail_to_mine(h: &Header) -> PowSeal {
    let mut nonce: u64 = 0;
    while pow_value(&h.hash, nonce).checked_mul(h.difficulty).is_some() {
        nonce += 1;
    }
    PowSeal { nonce }
}

fn genesis_header(root: [u8; 32]) -> Header {
    header(0, 10, 0, 0, root)
}

/// A light client whose genesis header commits to exactly `m`.
fn client_for(m: &Message) -> LightClient {
    LightClient::new(genesis_header(message_leaf(m)), 0)
}

/// A light client whose header `k` commits to exactly `ms[k]`.
fn client_for_all(ms: &[Message]) -> LightClient {
    let mut lc = client_for(&ms[0]);
    for k in 1..ms.len() {
        let h = child_of(&lc.latest_verified_header(), 1, message_leaf(&ms[k]));
        assert_eq!(lc.import_header(h, mine(&h)), Ok(k as u64));
    }
    lc
}

fn proof_at(k: u64) -> MessageProof {
    MessageProof { header_ref: k, path: vec![] }
}

fn message(source: [u8; 20], nonce: u64, payload: Vec<u8>, fee: u128) -> Message {
    Message { source_channel: source, nonce, payload, fee }
}

fn direct_proof() -> MessageProof {
    MessageProof { header_ref: 0, path: vec![] }
}

fn hex32(s: &str) -> [u8; 32] {
    let mut out = [0u8; 32];
    for i in 0..32 {
        out[i] = u8::from_str_radix(&s[2 * i..2 * i + 2], 16).unwrap();
    }
    out
}

#[test]
fn keccak_of_empty_input() {
    let h = hash_bytes(&vec![]);
    assert_eq!(h, hex32("c5d2460186f7233c927e7db2dcc703c0e500b653ca82273b7bfad8045d85a470"));
}

#[test]
fn keccak_of_pair_is_keccak_of_concatenation() {
    let a = [3u8; 32];
    let b = [4u8; 32];
    let mut joined = a.to_vec();
    joined.extend_from_slice(&b);
    assert_eq!(hash_pair(&a, &b), hash_bytes(&joined));
    assert_ne!(hash_pair(&a, &b), hash_pair(&b, &a));
}

#[test]
fn merkle_root_follows_sibling_sides() {
    let leaf = hash_bytes(&vec![1, 2, 3]);
    let s1 = [7u8; 32];
    let s2 = [8u8; 32];
    let path = vec![
        ProofNode { sibling: s1, sibling_is_left: true },
        ProofNode { sibling: s2, sibling_is_left: false },
    ];
    let expected = hash_pair(&hash_pair(&s1, &leaf), &s2);
    assert_eq!(compute_root(&leaf, &path), expected);
    assert_eq!(compute_root(&leaf, &vec![]), leaf);
}

#[test]
fn import_raises_cumulative_difficulty_and_height() {
    let g = genesis_header([0u8; 32]);
    let mut lc = LightClient::new(g, 5);
    let h1 = child_of(&g, 3, [1u8; 32]);
    assert_eq!(lc.import_header(h1, mine(&h1)), Ok(1));
    assert_eq!(lc.cumulative_difficulty(), 8);
    assert_eq!(lc.latest_verified_header().number, 1);
    let h2 = child_of(&h1, 1, [2u8; 32]);
    assert_eq!(lc.import_header(h2, mine(&h2)), Ok(2));
    assert_eq!(lc.cumulative_difficulty(), 9);
    assert_eq!(lc.latest_verified_header().hash, h2.hash);
}

#[test]
fn import_rejects_wrong_parent_or_height() {
    let g = genesis_header([0u8; 32]);
    let mut lc = LightClient::new(g, 5);
    let mut orphan = child_of(&g, 3, [0u8; 32]);
    orphan.parent_hash = [99u8; 32];
    orphan.hash = header_hash(&orphan);
    assert_eq!(lc.import_header(orphan, mine(&orphan)), Err(BridgeError::NonContiguousParent));
    let mut skip = child_of(&g, 3, [0u8; 32]);
    skip.number = 2;
    skip.hash = header_hash(&skip);
    assert_eq!(lc.import_header(skip, mine(&skip)), Err(BridgeError::NonContiguousParent));
    assert_eq!(lc.cumulative_difficulty(), 5);
    assert_eq!(lc.latest_verified_header().number, 0);
}

#[test]
fn import_rejects_invalid_proof_of_work() {
    let g = genesis_header([0u8; 32]);
    let mut lc = LightClient::new(g, 0);
    let h1 = child_of(&g, 16, [0u8; 32]);
    assert_eq!(lc.import_header(h1, fail_to_mine(&h1)), Err(BridgeError::InvalidProofOfWork));
    // A header whose hash is not the digest of its fields is rejected whatever the seal.
    let mut forged = child_of(&g, 1, [7u8; 32]);
    forged.receipts_root = [8u8; 32];
    assert_eq!(lc.import_header(forged, mine(&forged)), Err(BridgeError::InvalidProofOfWork));
    assert_eq!(lc.latest_verified_header().number, 0);
    assert_eq!(lc.import_header(h1, mine(&h1)), Ok(1));
    assert_eq!(lc.cumulative_difficulty(), 16);
}

#[test]
fn work_value_reads_the_digest_big_endian() {
    let hash = [3u8; 32];
    let mut bytes = hash.to_vec();
    bytes.extend_from_slice(&5u64.to_be_bytes());
    let d = hash_bytes(&bytes);
    let mut top = [0u8; 16];
    top.copy_from_slice(&d[..16]);
    assert_eq!(pow_value(&hash, 5), u128::from_be_bytes(top));
    assert_ne!(pow_value(&hash, 5), pow_value(&hash, 6));
}

#[test]
fn header_hash_covers_every_field() {
    let g = genesis_header([0u8; 32]);
    let h = child_of(&g, 1, [1u8; 32]);
    let mut bytes = g.hash.to_vec();
    bytes.extend_from_slice(&1u64.to_be_bytes());
    bytes.extend_from_slice(&1u128.to_be_bytes());
    bytes.extend_from_slice(&12u64.to_be_bytes());
    bytes.extend_from_slice(&[1u8; 32]);
    assert_eq!(header_hash(&h), hash_bytes(&bytes));
    let mut other = h;
    other.timestamp += 1;
    assert_ne!(header_hash(&other), h.hash);
}

#[test]
fn import_rejects_stale_difficulty() {
    let g = genesis_header([0u8; 32]);
    let mut lc = LightClient::new(g, u128::MAX - 1);
    let zero = child_of(&g, 0, [0u8; 32]);
    assert_eq!(lc.import_header(zero, mine(&zero)), Err(BridgeError::StaleDifficulty));
    let two = child_of(&g, 2, [0u8; 32]);
    assert_eq!(lc.import_header(two, mine(&two)), Err(BridgeError::StaleDifficulty));
    let one = child_of(&g, 1, [0u8; 32]);
    assert_eq!(lc.import_header(one, mine(&one)), Ok(1));
    assert_eq!(lc.cumulative_difficulty(), u128::MAX);
}

#[test]
fn inclusion_above_frontier_is_not_verified() {
    let leaf = hash_bytes(&vec![5u8, 6, 7]);
    let mut lc = LightClient::new(genesis_header(leaf), 0);
    assert_eq!(lc.verify_inclusion(&leaf, &vec![], 0), Ok(()));
    assert_eq!(lc.verify_inclusion(&leaf, &vec![], 1), Err(BridgeError::HeaderNotVerified));
    // Header 1 commits to the same leaf but is not imported yet.
    let h1 = child_of(&lc.latest_verified_header(), 1, leaf);
    assert_eq!(lc.verify_inclusion(&leaf, &vec![], 1), Err(BridgeError::HeaderNotVerified));
    assert_eq!(lc.import_header(h1, mine(&h1)), Ok(1));
    assert_eq!(lc.verify_inclusion(&leaf, &vec![], 1), Ok(()));
    assert_eq!(lc.verify_inclusion(&leaf, &vec![], 2), Err(BridgeError::HeaderNotVerified));
}

#[test]
fn inclusion_with_wrong_path_is_invalid() {
    let leaf = hash_bytes(&vec![5u8, 6, 7]);
    let lc = LightClient::new(genesis_header(leaf), 0);
    let path = vec![ProofNode { sibling: [1u8; 32], sibling_is_left: false }];
    assert_eq!(lc.verify_inclusion(&leaf, &path, 0), Err(BridgeError::InvalidProof));
    assert_eq!(lc.verify_inclusion(&[0u8; 32], &vec![], 0), Err(BridgeError::InvalidProof));
}

#[test]
fn basic_inbound_nonces_increase_without_gaps_or_replays() {
    let m1 = message(BASIC_INBOUND_SOURCE, 1, vec![1u8], 0);
    let m2 = message(BASIC_INBOUND_SOURCE, 2, vec![2u8], 0);
    let m3 = message(BASIC_INBOUND_SOURCE, 3, vec![3u8], 0);
    let lc = client_for_all(&[m1.clone(), m2.clone(), m3.clone()]);
    let mut ch = BasicInboundChannel::new(BASIC_INBOUND_SOURCE);
    assert_eq!(ch.submit(&lc, &m2, &proof_at(1)), Err(BridgeError::NonceGap));
    assert_eq!(ch.submit(&lc, &m1, &proof_at(0)), Ok(()));
    assert_eq!(ch.nonce(), 1);
    assert_eq!(ch.submit(&lc, &m1, &proof_at(0)), Err(BridgeError::NonceReplay));
    assert_eq!(ch.submit(&lc, &m3, &proof_at(2)), Err(BridgeError::NonceGap));
    assert_eq!(ch.submit(&lc, &m2, &proof_at(1)), Ok(()));
    assert_eq!(ch.nonce(), 2);
    assert_eq!(ch.submit(&lc, &m2, &proof_at(1)), Err(BridgeError::NonceReplay));
    assert_eq!(ch.submit(&lc, &m1, &proof_at(0)), Err(BridgeError::NonceReplay));
    assert_eq!(ch.nonce(), 2);
}

#[test]
fn inbound_proof_binds_every_field() {
    let m1 = message(BASIC_INBOUND_SOURCE, 1, vec![1u8], 0);
    let lc = client_for(&m1);
    let mut ch = BasicInboundChannel::new(BASIC_INBOUND_SOURCE);
    assert_eq!(ch.submit(&lc, &message(BASIC_INBOUND_SOURCE, 1, vec![2u8], 0), &direct_proof()), Err(BridgeError::InvalidProof));
    assert_eq!(ch.submit(&lc, &message(BASIC_INBOUND_SOURCE, 1, vec![1u8], 5), &direct_proof()), Err(BridgeError::InvalidProof));
    assert_eq!(ch.submit(&lc, &message(BASIC_INBOUND_SOURCE, 2, vec![1u8], 0), &direct_proof()), Err(BridgeError::InvalidProof));
    assert_eq!(ch.submit(&lc, &m1, &proof_at(4)), Err(BridgeError::HeaderNotVerified));
    assert_eq!(ch.nonce(), 0);
    assert_eq!(ch.submit(&lc, &m1, &direct_proof()), Ok(()));
}

#[test]
fn message_leaf_hashes_the_committed_bytes() {
    let m = message(BASIC_INBOUND_SOURCE, 0x0102, vec![0xaa, 0xbb], 0x0304);
    let mut bytes = BASIC_INBOUND_SOURCE.to_vec();
    bytes.extend_from_slice(&0x0102u64.to_be_bytes());
    bytes.extend_from_slice(&0x0304u128.to_be_bytes());
    bytes.extend_from_slice(&[0xaa, 0xbb]);
    assert_eq!(bytes.len(), 46);
    assert_eq!(message_leaf(&m), hash_bytes(&bytes));
}

#[test]
fn scenario_d_wrong_source_channel_is_rejected() {
    let mut other = BASIC_INBOUND_SOURCE;
    other[19] ^= 1;
    // The proof is valid for the message from the wrong source.
    let forged = message(other, 1, vec![1u8, 2, 3], 0);
    let lc = client_for(&forged);
    let mut ch = BasicInboundChannel::new(BASIC_INBOUND_SOURCE);
    assert_eq!(ch.submit(&lc, &forged, &direct_proof()), Err(BridgeError::InvalidSourceChannel));
    assert_eq!(ch.nonce(), 0);
    // With a bad proof as well, the source is still what is reported.
    assert_eq!(ch.submit(&lc, &message(other, 1, vec![9u8], 0), &proof_at(3)), Err(BridgeError::InvalidSourceChannel));
    assert_eq!(ch.nonce(), 0);
}

#[test]
fn scenario_a_basic_outbound_commits_each_block() {
    let mut ch = BasicOutboundChannel::new(ALICE, 1).unwrap();
    let payload = vec![0xde, 0xad, 0xbe, 0xef];
    assert_eq!(ch.enqueue(&ALICE, payload.clone()), Ok(()));
    let batch = ch.commit(42).unwrap();
    assert_eq!(batch.nonce, 1);
    assert_eq!(batch.payloads, vec![payload]);
    assert_eq!(batch.fees, 0);
    assert_eq!(ch.nonce(), 1);
    let empty = ch.commit(43).unwrap();
    assert_eq!(empty.nonce, 2);
    assert!(empty.payloads.is_empty());
}

#[test]
fn basic_outbound_rejects_others_and_waits_for_interval() {
    let mut ch = BasicOutboundChannel::new(ALICE, 4).unwrap();
    assert_eq!(ch.enqueue(&BOB, vec![1]), Err(BridgeError::Unauthorized));
    assert_eq!(ch.enqueue(&ALICE, vec![2]), Ok(()));
    assert!(ch.commit(5).is_none());
    assert_eq!(ch.nonce(), 0);
    let batch = ch.commit(8).unwrap();
    assert_eq!(batch.payloads, vec![vec![2u8]]);
    assert!(BasicOutboundChannel::new(ALICE, 0).is_err());
}

#[test]
fn incentivized_outbound_charges_fee() {
    let mut ledger = AssetLedger::new();
    assert_eq!(ledger.credit(&AssetId::ETH, &BOB, 25), Ok(()));
    let mut ch = IncentivizedOutboundChannel::new(10, 1).unwrap();
    assert_eq!(ch.enqueue(&mut ledger, &BOB, vec![1]), Ok(()));
    assert_eq!(ch.enqueue(&mut ledger, &BOB, vec![2]), Ok(()));
    assert_eq!(ledger.balance(&AssetId::ETH, &BOB), 5);
    assert_eq!(ch.enqueue(&mut ledger, &BOB, vec![3]), Err(BridgeError::InsufficientFunds));
    assert_eq!(ch.enqueue(&mut ledger, &ALICE, vec![4]), Err(BridgeError::InsufficientFunds));
    assert_eq!(ledger.balance(&AssetId::ETH, &BOB), 5);
    let batch = ch.commit(7).unwrap();
    assert_eq!(batch.nonce, 1);
    assert_eq!(batch.payloads, vec![vec![1u8], vec![2u8]]);
    assert_eq!(batch.fees, 20);
    assert_eq!(ch.commit(8).unwrap().fees, 0);
    assert_eq!(ch.fee(), 10);
}

#[test]
fn incentivized_outbound_fee_pool_overflow() {
    let mut ledger = AssetLedger::new();
    assert_eq!(ledger.credit(&AssetId::ETH, &BOB, u128::MAX), Ok(()));
    let mut ch = IncentivizedOutboundChannel::new(u128::MAX / 2 + 1, 1).unwrap();
    assert_eq!(ch.enqueue(&mut ledger, &BOB, vec![1]), Ok(()));
    assert_eq!(ledger.credit(&AssetId::ETH, &ALICE, u128::MAX), Ok(()));
    assert_eq!(ch.enqueue(&mut ledger, &ALICE, vec![2]), Err(BridgeError::BalanceOverflow));
    assert_eq!(ledger.balance(&AssetId::ETH, &ALICE), u128::MAX);
    assert_eq!(ledger.balance(&AssetId::ETH, &BOB), u128::MAX / 2);
}

#[test]
fn scenario_b_reward_split() {
    let m = message(INCENTIVIZED_INBOUND_SOURCE, 1, vec![4u8, 2], 10_000_000_000_000_000);
    let lc = client_for(&m);
    let mut ledger = AssetLedger::new();
    let mut ch = IncentivizedInboundChannel::new(INCENTIVIZED_INBOUND_SOURCE, 80, TREASURY).unwrap();
    assert_eq!(ch.submit(&lc, &mut ledger, &m, &direct_proof(), &BOB), Ok(()));
    assert_eq!(ledger.balance(&AssetId::ETH, &BOB), 8_000_000_000_000_000);
    assert_eq!(ledger.balance(&AssetId::ETH, &TREASURY), 2_000_000_000_000_000);
    assert_eq!(ch.nonce(), 1);
    assert_eq!(ch.submit(&lc, &mut ledger, &m, &direct_proof(), &BOB), Err(BridgeError::NonceReplay));
    assert_eq!(ledger.balance(&AssetId::ETH, &BOB), 8_000_000_000_000_000);
}

#[test]
fn reward_split_is_exact_and_rounds_toward_treasury() {
    for fee in [0u128, 1, 7, 99, 100, 101, 12345, u128::MAX - 1, u128::MAX] {
        for pct in 0u8..=100 {
            let reward = reward_of(fee, pct);
            let remainder = fee - reward;
            assert_eq!(reward + remainder, fee);
            // floor(fee * pct / 100), computed without overflow.
            let exact = (fee / 100) * pct as u128 + (fee % 100) * pct as u128 / 100;
            assert_eq!(reward, exact);
        }
    }
    assert_eq!(reward_of(1, 50), 0);
    assert_eq!(reward_of(3, 50), 1);
    assert_eq!(reward_of(199, 80), 159);
    assert_eq!(reward_of(u128::MAX, 100), u128::MAX);
}

#[test]
fn incentivized_inbound_overflow_changes_nothing() {
    let m = message(INCENTIVIZED_INBOUND_SOURCE, 1, vec![1u8], 100);
    let lc = client_for(&m);
    let mut ledger = AssetLedger::new();
    assert_eq!(ledger.credit(&AssetId::ETH, &TREASURY, u128::MAX), Ok(()));
    let mut ch = IncentivizedInboundChannel::new(INCENTIVIZED_INBOUND_SOURCE, 80, TREASURY).unwrap();
    assert_eq!(ch.submit(&lc, &mut ledger, &m, &direct_proof(), &BOB), Err(BridgeError::BalanceOverflow));
    assert_eq!(ledger.balance(&AssetId::ETH, &BOB), 0);
    assert_eq!(ledger.balance(&AssetId::ETH, &TREASURY), u128::MAX);
    assert_eq!(ch.nonce(), 0);
}

#[test]
fn incentivized_inbound_relayer_may_be_treasury() {
    let m = message(INCENTIVIZED_INBOUND_SOURCE, 1, vec![1u8], 1000);
    let lc = client_for(&m);
    let mut ledger = AssetLedger::new();
    let mut ch = IncentivizedInboundChannel::new(INCENTIVIZED_INBOUND_SOURCE, 30, TREASURY).unwrap();
    assert_eq!(ch.submit(&lc, &mut ledger, &m, &direct_proof(), &TREASURY), Ok(()));
    assert_eq!(ledger.balance(&AssetId::ETH, &TREASURY), 1000);
}

#[test]
fn incentivized_inbound_rejects_fraction_above_hundred() {
    assert_eq!(IncentivizedInboundChannel::new(INCENTIVIZED_INBOUND_SOURCE, 101, TREASURY).err(), Some(BridgeError::InvalidConfig));
    assert!(IncentivizedInboundChannel::new(INCENTIVIZED_INBOUND_SOURCE, 100, TREASURY).is_ok());
    assert!(IncentivizedOutboundChannel::new(1, 0).is_err());
}

#[test]
fn scenario_c_overdraft_fails_and_keeps_balance() {
    let ledger_seed = vec![(AssetId::ETH, FERDIE, 1_000_000_000_000_000_000u128)];
    let mut ledger = AssetLedger::from_balances(&ledger_seed).unwrap();
    assert_eq!(ledger.debit(&AssetId::ETH, &FERDIE, 1_000_000_000_000_000_001), Err(BridgeError::InsufficientBalance));
    assert_eq!(ledger.balance(&AssetId::ETH, &FERDIE), 1_000_000_000_000_000_000);
}

#[test]
fn credit_then_debit_restores_balance() {
    let token = AssetId::Token([5u8; 20]);
    let mut ledger = AssetLedger::new();
    assert_eq!(ledger.credit(&token, &ALICE, 70), Ok(()));
    assert_eq!(ledger.credit(&token, &ALICE, 30), Ok(()));
    assert_eq!(ledger.debit(&token, &ALICE, 30), Ok(()));
    assert_eq!(ledger.balance(&token, &ALICE), 70);
    assert_eq!(ledger.balance(&AssetId::ETH, &ALICE), 0);
    assert_eq!(ledger.balance(&AssetId::Token([6u8; 20]), &ALICE), 0);
    assert_eq!(ledger.debit(&token, &ALICE, 71), Err(BridgeError::InsufficientBalance));
    assert_eq!(ledger.debit(&token, &BOB, 1), Err(BridgeError::InsufficientBalance));
    assert_eq!(ledger.debit(&token, &ALICE, 70), Ok(()));
    assert_eq!(ledger.balance(&token, &ALICE), 0);
}

#[test]
fn credit_overflow_is_rejected() {
    let mut ledger = AssetLedger::new();
    assert_eq!(ledger.credit(&AssetId::ETH, &ALICE, u128::MAX), Ok(()));
    assert_eq!(ledger.credit(&AssetId::ETH, &ALICE, 1), Err(BridgeError::BalanceOverflow));
    assert_eq!(ledger.balance(&AssetId::ETH, &ALICE), u128::MAX);
    let seed = vec![(AssetId::ETH, ALICE, u128::MAX), (AssetId::ETH, ALICE, 1)];
    assert_eq!(AssetLedger::from_balances(&seed).err(), Some(BridgeError::BalanceOverflow));
    let seed = vec![(AssetId::ETH, ALICE, 5), (AssetId::ETH, BOB, 6), (AssetId::ETH, ALICE, 7)];
    let l = AssetLedger::from_balances(&seed).unwrap();
    assert_eq!(l.balance(&AssetId::ETH, &ALICE), 12);
    assert_eq!(l.balance(&AssetId::ETH, &BOB), 6);
}

#[test]
fn testnet_bridge_starts_from_genesis() {
    let config: GenesisConfig = testnet_genesis(ALICE, FERDIE, TREASURY);
    assert_eq!(config.incentivized_outbound_fee, 10_000_000_000_000_000);
    assert_eq!(config.reward_fraction, 80);
    let mut bridge = Bridge::from_genesis(config).unwrap();
    assert_eq!(bridge.ledger.balance(&AssetId::ETH, &FERDIE), TESTNET_ENDOWMENT);
    assert_eq!(bridge.incentivized_outbound.fee(), TESTNET_FEE);
    assert_eq!(bridge.light_client.latest_verified_header().number, 0);
    assert_eq!(bridge.basic_outbound.enqueue(&ALICE, vec![1]), Ok(()));
    assert_eq!(bridge.basic_outbound.commit(1).unwrap().nonce, 1);
    let mut bad = testnet_genesis(ALICE, FERDIE, TREASURY);
    bad.reward_fraction = 150;
    assert_eq!(Bridge::from_genesis(bad).err(), Some(BridgeError::InvalidConfig));
}

#[test]
fn payloads_route_to_their_application() {
    let bridge = Bridge::from_genesis(testnet_genesis(ALICE, FERDIE, TREASURY)).unwrap();
    let mut payload = ETH_APP_ADDRESS.to_vec();
    payload.extend_from_slice(&[1, 2, 3]);
    assert_eq!(bridge.apps.route(&payload), Some(App::Eth));
    assert_eq!(bridge.apps.route(&ETH_APP_ADDRESS[..19].to_vec()), None);
    assert_eq!(bridge.apps.route(&vec![0u8; 40]), None);
}

#[test]
fn bridge_delivers_to_addressed_application() {
    let mut payload = ETH_APP_ADDRESS.to_vec();
    payload.extend_from_slice(&[7, 7]);
    let m = message(BASIC_INBOUND_SOURCE, 1, payload.clone(), 0);
    let paid = message(INCENTIVIZED_INBOUND_SOURCE, 1, payload, 1_000);
    let mut config = testnet_genesis(ALICE, FERDIE, TREASURY);
    config.initial_header = genesis_header(hash_pair(&message_leaf(&m), &message_leaf(&paid)));
    let mut bridge = Bridge::from_genesis(config).unwrap();
    let proof_m = MessageProof { header_ref: 0, path: vec![ProofNode { sibling: message_leaf(&paid), sibling_is_left: false }] };
    let proof_paid = MessageProof { header_ref: 0, path: vec![ProofNode { sibling: message_leaf(&m), sibling_is_left: true }] };
    assert_eq!(bridge.deliver_basic(&m, &proof_m), Ok(Some(App::Eth)));
    assert_eq!(bridge.deliver_basic(&m, &proof_m), Err(BridgeError::NonceReplay));
    assert_eq!(bridge.deliver_incentivized(&paid, &proof_paid, &BOB), Ok(Some(App::Eth)));
    assert_eq!(bridge.ledger.balance(&AssetId::ETH, &BOB), 800);
    assert_eq!(bridge.ledger.balance(&AssetId::ETH, &TREASURY), 200);
    let stray = message(INCENTIVIZED_INBOUND_SOURCE, 2, vec![1u8], 1_000);
    assert_eq!(bridge.deliver_incentivized(&stray, &proof_paid, &BOB), Err(BridgeError::InvalidProof));
}
