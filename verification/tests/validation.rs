use btclib::chain::Blockchain;
use btclib::crypto::{PrivateKey, PublicKey, Signature};
use btclib::error::BtcError;
use btclib::rules::{block_subsidy, has_duplicates, total_value};
use btclib::types::{
    Block, BlockHeader, Timestamp, Transaction, TransactionInput, TransactionOutput,
};
use btclib::u256::U256;
use btclib::util::MerkleRoot;
use btclib::utxo::UtxoSet;
use btclib::{HALVING_INTERVAL, INITIAL_REWARD};

type Digest = btclib::sha256::Hash;

const SUBSIDY: u64 = 5_000_000_000;

fn key(byte: u8) -> PrivateKey {
    PrivateKey::from_bytes(vec![byte; 32]).expect("a valid scalar")
}

fn output(value: u64, id: u128, owner: &PublicKey) -> TransactionOutput {
    TransactionOutput { value, unique_id: id, pub_key: owner.clone() }
}

fn coinbase(value: u64, id: u128, owner: &PublicKey) -> Transaction {
    Transaction::new(vec![], vec![output(value, id, owner)])
}

/// An input that spends what `key` maps to, signed by `signer`.
fn spend(key: Digest, signer: &PrivateKey) -> TransactionInput {
    TransactionInput {
        prev_transaction_output_hash: key,
        signature: Signature::sign_output(&key, signer).expect("a signature"),
    }
}

/// A block with the root of its transactions and a target that every digest meets.
fn block_on(prev: Digest, secs: i64, transactions: Vec<Transaction>) -> Block {
    let root = MerkleRoot::calculate(&transactions);
    let header = BlockHeader::new(Timestamp::new(secs, 0), 0, prev, root, U256::max_value());
    Block::new(header, transactions)
}

/// A chain of one block whose coinbase pays the subsidy to the key made of `owner`.
fn chain_with_genesis(owner: u8) -> (Blockchain, Digest) {
    let mut chain = Blockchain::new();
    let tx = coinbase(SUBSIDY, 1, &key(owner).public_key());
    let spendable = tx.hash();
    assert_eq!(chain.add_block(block_on(Digest::zero(), 100, vec![tx])), Ok(()));
    (chain, spendable)
}

fn tip(chain: &Blockchain) -> Digest {
    chain.blocks().last().unwrap().hash()
}

/// A set in which each key maps to an output of the given value and owner.
fn utxos_of(entries: &[(Digest, u64, &PublicKey)]) -> UtxoSet {
    let mut set = UtxoSet::new();
    for (i, (k, value, owner)) in entries.iter().enumerate() {
        set.insert(*k, output(*value, 1000 + i as u128, owner));
    }
    set
}

fn digest(n: u64) -> Digest {
    Digest::from_u256(U256::from_u64(n))
}

#[test]
fn constants_are_the_usual_ones() {
    assert_eq!(INITIAL_REWARD, 50);
    assert_eq!(HALVING_INTERVAL, 210);
}

#[test]
fn subsidy_halves_every_interval() {
    assert_eq!(block_subsidy(0), 5_000_000_000);
    assert_eq!(block_subsidy(209), 5_000_000_000);
    assert_eq!(block_subsidy(210), 2_500_000_000);
    assert_eq!(block_subsidy(419), 2_500_000_000);
    assert_eq!(block_subsidy(420), 1_250_000_000);
    assert_eq!(block_subsidy(210 * 9), 9_765_625);
    assert_eq!(block_subsidy(210 * 10), 4_882_812);
    assert_eq!(block_subsidy(210 * 32), 1);
    assert_eq!(block_subsidy(210 * 33), 0);
    assert_eq!(block_subsidy(210 * 63), 0);
    assert_eq!(block_subsidy(210 * 64), 0);
    assert_eq!(block_subsidy(u64::MAX), 0);
}

#[test]
fn total_value_does_not_overflow() {
    assert_eq!(total_value(&vec![]), 0);
    assert_eq!(total_value(&vec![3, 4]), 7);
    assert_eq!(total_value(&vec![u64::MAX, u64::MAX, 2]), 2 * (u64::MAX as u128) + 2);
}

#[test]
fn has_duplicates_finds_a_repeated_digest() {
    assert!(!has_duplicates(&vec![]));
    assert!(!has_duplicates(&vec![digest(1), digest(2), digest(3)]));
    assert!(has_duplicates(&vec![digest(1), digest(2), digest(1)]));
    assert!(has_duplicates(&vec![digest(4), digest(4)]));
}

#[test]
fn utxo_set_maps_digests_to_outputs() {
    let owner = key(2).public_key();
    let mut set = UtxoSet::new();
    assert_eq!(set.len(), 0);
    assert!(set.get(&digest(1)).is_none());
    set.insert(digest(1), output(10, 1, &owner));
    set.insert(digest(2), output(20, 2, &owner));
    assert_eq!(set.len(), 2);
    assert_eq!(set.get(&digest(1)).unwrap().value, 10);
    assert_eq!(set.get(&digest(2)).unwrap().value, 20);
    assert!(set.contains_key(&digest(2)));
    assert!(!set.contains_key(&digest(3)));
}

#[test]
fn utxo_set_insert_replaces() {
    let owner = key(2).public_key();
    let mut set = UtxoSet::new();
    set.insert(digest(1), output(10, 1, &owner));
    set.insert(digest(1), output(30, 3, &owner));
    assert_eq!(set.len(), 1);
    assert_eq!(set.get(&digest(1)).unwrap().value, 30);
    assert_eq!(set.get(&digest(1)).unwrap().unique_id, 3);
}

#[test]
fn utxo_set_remove_takes_one_key_out() {
    let owner = key(2).public_key();
    let mut set = UtxoSet::new();
    set.insert(digest(1), output(10, 1, &owner));
    set.insert(digest(2), output(20, 2, &owner));
    set.insert(digest(3), output(30, 3, &owner));
    set.remove(&digest(2));
    set.remove(&digest(9));
    assert_eq!(set.len(), 2);
    assert!(!set.contains_key(&digest(2)));
    assert_eq!(set.get(&digest(1)).unwrap().value, 10);
    assert_eq!(set.get(&digest(3)).unwrap().value, 30);
    let mut keys = set.keys();
    keys.sort_by_key(|k| k.as_bytes());
    assert_eq!(keys, vec![digest(1), digest(3)]);
}

#[test]
fn new_chain_is_empty() {
    let chain = Blockchain::new();
    assert_eq!(chain.block_height(), 0);
    assert_eq!(chain.blocks().len(), 0);
    assert_eq!(chain.utxos().len(), 0);
}

#[test]
fn genesis_is_accepted_whatever_its_other_fields() {
    let owner = key(1).public_key();
    let mut chain = Blockchain::new();
    let header = BlockHeader::new(
        Timestamp::new(-7, 3),
        42,
        Digest::zero(),
        MerkleRoot::from_hash(digest(12345)),
        U256::zero(),
    );
    let tx = coinbase(1, 1, &owner);
    let key_of_output = tx.hash();
    assert_eq!(chain.add_block(Block::new(header, vec![tx])), Ok(()));
    assert_eq!(chain.block_height(), 1);
    assert_eq!(chain.utxos().len(), 1);
    assert_eq!(chain.utxos().get(&key_of_output).unwrap().value, 1);
}

#[test]
fn genesis_without_transactions_is_accepted() {
    let mut chain = Blockchain::new();
    let header = BlockHeader::new(
        Timestamp::new(0, 0),
        0,
        Digest::zero(),
        MerkleRoot::from_hash(Digest::zero()),
        U256::zero(),
    );
    assert_eq!(chain.add_block(Block::new(header, vec![])), Ok(()));
    assert_eq!(chain.block_height(), 1);
    assert_eq!(chain.utxos().len(), 0);
}

#[test]
fn genesis_with_a_predecessor_is_rejected() {
    let owner = key(1).public_key();
    let mut chain = Blockchain::new();
    let block = block_on(digest(1), 100, vec![coinbase(SUBSIDY, 1, &owner)]);
    assert_eq!(chain.add_block(block), Err(BtcError::InvalidBlock));
    assert_eq!(chain.block_height(), 0);
    assert_eq!(chain.utxos().len(), 0);
}

#[test]
fn second_block_with_zero_predecessor_is_rejected() {
    let (mut chain, _) = chain_with_genesis(1);
    let block = block_on(Digest::zero(), 200, vec![coinbase(SUBSIDY, 2, &key(2).public_key())]);
    assert_eq!(chain.add_block(block), Err(BtcError::InvalidBlock));
    assert_eq!(chain.block_height(), 1);
}

#[test]
fn broken_link_is_rejected() {
    let (mut chain, _) = chain_with_genesis(1);
    let block = block_on(digest(77), 200, vec![coinbase(SUBSIDY, 2, &key(2).public_key())]);
    assert_eq!(chain.add_block(block), Err(BtcError::InvalidBlock));
    assert_eq!(chain.block_height(), 1);
    assert_eq!(chain.utxos().len(), 1);
}

#[test]
fn coinbase_only_block_is_accepted() {
    let (mut chain, first) = chain_with_genesis(1);
    let tx = coinbase(SUBSIDY, 2, &key(2).public_key());
    let second = tx.hash();
    let block = block_on(tip(&chain), 200, vec![tx]);
    assert_eq!(chain.add_block(block), Ok(()));
    assert_eq!(chain.block_height(), 2);
    assert_eq!(chain.utxos().len(), 2);
    assert!(chain.utxos().contains_key(&first));
    assert!(chain.utxos().contains_key(&second));
}

#[test]
fn unmet_target_is_rejected() {
    let (mut chain, _) = chain_with_genesis(1);
    let transactions = vec![coinbase(SUBSIDY, 2, &key(2).public_key())];
    let root = MerkleRoot::calculate(&transactions);
    let header = BlockHeader::new(Timestamp::new(200, 0), 0, tip(&chain), root, U256::zero());
    assert_eq!(chain.add_block(Block::new(header, transactions)), Err(BtcError::InvalidBlock));
    assert_eq!(chain.block_height(), 1);
}

#[test]
fn target_equal_to_the_digest_is_met() {
    let (mut chain, _) = chain_with_genesis(1);
    let transactions = vec![coinbase(SUBSIDY, 2, &key(2).public_key())];
    let root = MerkleRoot::calculate(&transactions);
    let prev = tip(&chain);
    // The target is a field of the header, so a header whose digest equals
    // its target is searched for among a few nonces with a target just
    // above and just below the digest of a fixed header.
    let probe = BlockHeader::new(Timestamp::new(200, 0), 0, prev, root, U256::max_value());
    assert!(probe.hash().matches_target(probe.target));
    let (w3, w2, w1, w0) = probe.hash().to_u256().words();
    assert!(probe.hash().matches_target(U256::from_words(w3, w2, w1, w0)));
    assert_eq!(chain.add_block(Block::new(probe, transactions)), Ok(()));
}

#[test]
fn wrong_merkle_root_is_rejected() {
    let (mut chain, _) = chain_with_genesis(1);
    let transactions = vec![coinbase(SUBSIDY, 2, &key(2).public_key())];
    let header = BlockHeader::new(
        Timestamp::new(200, 0),
        0,
        tip(&chain),
        MerkleRoot::from_hash(digest(5)),
        U256::max_value(),
    );
    assert_eq!(
        chain.add_block(Block::new(header, transactions)),
        Err(BtcError::InvalidMerkleRoot)
    );
}

#[test]
fn later_block_without_transactions_is_rejected() {
    let (mut chain, _) = chain_with_genesis(1);
    let header = BlockHeader::new(
        Timestamp::new(200, 0),
        0,
        tip(&chain),
        MerkleRoot::from_hash(Digest::zero()),
        U256::max_value(),
    );
    assert_eq!(chain.add_block(Block::new(header, vec![])), Err(BtcError::InvalidMerkleRoot));
    assert_eq!(chain.block_height(), 1);
}

#[test]
fn timestamp_must_increase() {
    let (mut chain, _) = chain_with_genesis(1);
    let same = block_on(tip(&chain), 100, vec![coinbase(SUBSIDY, 2, &key(2).public_key())]);
    assert_eq!(chain.add_block(same), Err(BtcError::InvalidBlock));
    let earlier = block_on(tip(&chain), 99, vec![coinbase(SUBSIDY, 2, &key(2).public_key())]);
    assert_eq!(chain.add_block(earlier), Err(BtcError::InvalidBlock));
    let transactions = vec![coinbase(SUBSIDY, 2, &key(2).public_key())];
    let root = MerkleRoot::calculate(&transactions);
    let header =
        BlockHeader::new(Timestamp::new(100, 1), 0, tip(&chain), root, U256::max_value());
    assert_eq!(chain.add_block(Block::new(header, transactions)), Ok(()));
}

#[test]
fn checks_come_in_order() {
    let (mut chain, _) = chain_with_genesis(1);
    // A wrong root and an earlier timestamp: the root is reported.
    let header = BlockHeader::new(
        Timestamp::new(50, 0),
        0,
        tip(&chain),
        MerkleRoot::from_hash(digest(5)),
        U256::max_value(),
    );
    let block = Block::new(header, vec![coinbase(1, 2, &key(2).public_key())]);
    assert_eq!(chain.add_block(block), Err(BtcError::InvalidMerkleRoot));
    // A right root, an earlier timestamp and a wrong coinbase: the timestamp is reported.
    let block = block_on(tip(&chain), 50, vec![coinbase(1, 2, &key(2).public_key())]);
    assert_eq!(chain.add_block(block), Err(BtcError::InvalidBlock));
    // Only the coinbase is wrong.
    let block = block_on(tip(&chain), 200, vec![coinbase(1, 2, &key(2).public_key())]);
    assert_eq!(chain.add_block(block), Err(BtcError::InvalidTransaction));
}

#[test]
fn end_to_end_spend() {
    let a = key(1);
    let b = key(2);
    let miner = key(3);
    let (mut chain, a_output) = chain_with_genesis(1);
    assert_eq!(chain.utxos().get(&a_output).unwrap().value, SUBSIDY);
    assert_eq!(chain.utxos().get(&a_output).unwrap().pub_key.to_sec1_bytes(), a.public_key().to_sec1_bytes());

    let reward = coinbase(SUBSIDY, 2, &miner.public_key());
    let payment =
        Transaction::new(vec![spend(a_output, &a)], vec![output(SUBSIDY, 3, &b.public_key())]);
    let reward_key = reward.hash();
    let payment_key = payment.hash();
    let block = block_on(tip(&chain), 200, vec![reward, payment]);
    assert_eq!(chain.add_block(block), Ok(()));

    assert_eq!(chain.block_height(), 2);
    let utxos = chain.utxos();
    assert_eq!(utxos.len(), 2);
    assert!(!utxos.contains_key(&a_output));
    let to_b = utxos.get(&payment_key).unwrap();
    assert_eq!(to_b.value, SUBSIDY);
    assert_eq!(to_b.unique_id, 3);
    assert_eq!(to_b.pub_key.to_sec1_bytes(), b.public_key().to_sec1_bytes());
    let to_miner = utxos.get(&reward_key).unwrap();
    assert_eq!(to_miner.value, SUBSIDY);
    assert_eq!(to_miner.pub_key.to_sec1_bytes(), miner.public_key().to_sec1_bytes());
}

#[test]
fn tampered_transaction_fails_the_merkle_check() {
    let a = key(1);
    let (mut chain, a_output) = chain_with_genesis(1);
    let reward = coinbase(SUBSIDY, 2, &key(3).public_key());
    let payment = Transaction::new(
        vec![spend(a_output, &a)],
        vec![output(SUBSIDY, 3, &key(2).public_key())],
    );
    let valid = block_on(tip(&chain), 200, vec![reward, payment]);

    let mut tampered = valid.clone();
    tampered.transactions[1].outputs[0].value = SUBSIDY - 1;
    assert_eq!(chain.add_block(tampered), Err(BtcError::InvalidMerkleRoot));
    assert_eq!(chain.block_height(), 1);
    assert!(chain.utxos().contains_key(&a_output));

    assert_eq!(chain.add_block(valid), Ok(()));
    assert_eq!(chain.block_height(), 2);
}

#[test]
fn spent_output_cannot_be_spent_again() {
    let a = key(1);
    let (mut chain, a_output) = chain_with_genesis(1);
    let first = block_on(
        tip(&chain),
        200,
        vec![
            coinbase(SUBSIDY, 2, &key(3).public_key()),
            Transaction::new(vec![spend(a_output, &a)], vec![output(SUBSIDY, 3, &key(2).public_key())]),
        ],
    );
    assert_eq!(chain.add_block(first), Ok(()));
    let again = block_on(
        tip(&chain),
        300,
        vec![
            coinbase(2 * SUBSIDY, 4, &key(3).public_key()),
            Transaction::new(vec![spend(a_output, &a)], vec![output(1, 5, &key(2).public_key())]),
        ],
    );
    assert_eq!(chain.add_block(again), Err(BtcError::InvalidTransaction));
    assert_eq!(chain.block_height(), 2);
    assert_eq!(chain.utxos().len(), 2);
}

#[test]
fn double_spend_within_a_block_is_rejected() {
    let a = key(1);
    let (mut chain, a_output) = chain_with_genesis(1);
    let before = chain.utxos().keys();
    // Two transactions spend the same output; each signature verifies.
    let block = block_on(
        tip(&chain),
        200,
        vec![
            coinbase(SUBSIDY, 2, &key(3).public_key()),
            Transaction::new(vec![spend(a_output, &a)], vec![output(SUBSIDY, 3, &key(2).public_key())]),
            Transaction::new(vec![spend(a_output, &a)], vec![output(SUBSIDY, 4, &key(4).public_key())]),
        ],
    );
    assert_eq!(chain.add_block(block), Err(BtcError::InvalidTransaction));
    // One transaction names the same output twice.
    let block = block_on(
        tip(&chain),
        200,
        vec![
            coinbase(SUBSIDY, 2, &key(3).public_key()),
            Transaction::new(
                vec![spend(a_output, &a), spend(a_output, &a)],
                vec![output(SUBSIDY, 3, &key(2).public_key())],
            ),
        ],
    );
    assert_eq!(chain.add_block(block), Err(BtcError::InvalidTransaction));
    assert_eq!(chain.block_height(), 1);
    assert_eq!(chain.utxos().keys(), before);
}

#[test]
fn rebuild_agrees_with_incremental_update() {
    let a = key(1);
    let (mut chain, a_output) = chain_with_genesis(1);
    let block = block_on(
        tip(&chain),
        200,
        vec![
            coinbase(SUBSIDY + 10, 2, &key(3).public_key()),
            Transaction::new(
                vec![spend(a_output, &a)],
                vec![output(SUBSIDY - 10, 3, &key(2).public_key())],
            ),
        ],
    );
    assert_eq!(chain.add_block(block), Ok(()));
    let mut before = chain.utxos().keys();
    before.sort_by_key(|k| k.as_bytes());
    let values: Vec<u64> = before.iter().map(|k| chain.utxos().get(k).unwrap().value).collect();
    chain.rebuild_utxos();
    let mut after = chain.utxos().keys();
    after.sort_by_key(|k| k.as_bytes());
    assert_eq!(before, after);
    assert_eq!(after.len(), 2);
    let rebuilt: Vec<u64> = after.iter().map(|k| chain.utxos().get(k).unwrap().value).collect();
    assert_eq!(values, rebuilt);
    assert_eq!(chain.block_height(), 2);
}

#[test]
fn last_output_of_a_transaction_is_the_one_kept() {
    let owner = key(1).public_key();
    let mut chain = Blockchain::new();
    let tx = Transaction::new(vec![], vec![output(1, 1, &owner), output(2, 2, &owner)]);
    let k = tx.hash();
    assert_eq!(chain.add_block(block_on(Digest::zero(), 100, vec![tx])), Ok(()));
    assert_eq!(chain.utxos().len(), 1);
    assert_eq!(chain.utxos().get(&k).unwrap().value, 2);
}

#[test]
fn fees_are_inputs_minus_outputs() {
    let a = key(1);
    let owner = a.public_key();
    let utxos = utxos_of(&[(digest(1), 100, &owner), (digest(2), 50, &owner)]);
    let block = block_on(
        Digest::zero(),
        1,
        vec![
            coinbase(SUBSIDY, 1, &owner),
            Transaction::new(vec![spend(digest(1), &a)], vec![output(70, 2, &owner)]),
            Transaction::new(
                vec![spend(digest(2), &a)],
                vec![output(20, 3, &owner), output(25, 4, &owner)],
            ),
        ],
    );
    assert_eq!(block.calculate_miner_fees(&utxos), Ok(35));
}

#[test]
fn fees_of_a_block_without_spending_are_zero() {
    let owner = key(1).public_key();
    let utxos = UtxoSet::new();
    assert_eq!(block_on(Digest::zero(), 1, vec![coinbase(7, 1, &owner)]).calculate_miner_fees(&utxos), Ok(0));
    let header = BlockHeader::new(
        Timestamp::new(0, 0),
        0,
        Digest::zero(),
        MerkleRoot::from_hash(Digest::zero()),
        U256::zero(),
    );
    assert_eq!(Block::new(header, vec![]).calculate_miner_fees(&utxos), Ok(0));
}

#[test]
fn fees_ignore_the_inputs_of_the_first_transaction() {
    let a = key(1);
    let owner = a.public_key();
    let utxos = utxos_of(&[(digest(1), 100, &owner)]);
    let block = block_on(
        Digest::zero(),
        1,
        vec![
            Transaction::new(vec![spend(digest(9), &a)], vec![output(1, 1, &owner)]),
            Transaction::new(vec![spend(digest(1), &a)], vec![output(60, 2, &owner)]),
        ],
    );
    assert_eq!(block.calculate_miner_fees(&utxos), Ok(40));
}

#[test]
fn fees_fail_on_an_unknown_output() {
    let a = key(1);
    let owner = a.public_key();
    let utxos = utxos_of(&[(digest(1), 100, &owner)]);
    let block = block_on(
        Digest::zero(),
        1,
        vec![
            coinbase(SUBSIDY, 1, &owner),
            Transaction::new(vec![spend(digest(2), &a)], vec![output(1, 2, &owner)]),
        ],
    );
    assert_eq!(block.calculate_miner_fees(&utxos), Err(BtcError::InvalidTransaction));
}

#[test]
fn fees_fail_on_a_double_spend() {
    let a = key(1);
    let owner = a.public_key();
    let utxos = utxos_of(&[(digest(1), 100, &owner)]);
    let block = block_on(
        Digest::zero(),
        1,
        vec![
            coinbase(SUBSIDY, 1, &owner),
            Transaction::new(vec![spend(digest(1), &a)], vec![output(1, 2, &owner)]),
            Transaction::new(vec![spend(digest(1), &a)], vec![output(1, 3, &owner)]),
        ],
    );
    assert_eq!(block.calculate_miner_fees(&utxos), Err(BtcError::InvalidTransaction));
}

#[test]
fn fees_fail_on_two_equal_outputs() {
    let a = key(1);
    let owner = a.public_key();
    let utxos = utxos_of(&[(digest(1), 100, &owner)]);
    let block = block_on(
        Digest::zero(),
        1,
        vec![
            coinbase(SUBSIDY, 1, &owner),
            Transaction::new(
                vec![spend(digest(1), &a)],
                vec![output(1, 2, &owner), output(1, 2, &owner)],
            ),
        ],
    );
    assert_eq!(block.calculate_miner_fees(&utxos), Err(BtcError::InvalidTransaction));
}

#[test]
fn fees_fail_when_more_is_paid_out_than_spent() {
    let a = key(1);
    let owner = a.public_key();
    let utxos = utxos_of(&[(digest(1), 100, &owner)]);
    let block = block_on(
        Digest::zero(),
        1,
        vec![
            coinbase(SUBSIDY, 1, &owner),
            Transaction::new(vec![spend(digest(1), &a)], vec![output(101, 2, &owner)]),
        ],
    );
    assert_eq!(block.calculate_miner_fees(&utxos), Err(BtcError::InvalidTransaction));
}

#[test]
fn fees_fail_when_the_amount_spent_exceeds_64_bits() {
    let a = key(1);
    let owner = a.public_key();
    let utxos = utxos_of(&[(digest(1), u64::MAX, &owner), (digest(2), 1, &owner)]);
    let block = block_on(
        Digest::zero(),
        1,
        vec![
            coinbase(SUBSIDY, 1, &owner),
            Transaction::new(
                vec![spend(digest(1), &a), spend(digest(2), &a)],
                vec![output(5, 2, &owner)],
            ),
        ],
    );
    assert_eq!(block.calculate_miner_fees(&utxos), Err(BtcError::InvalidTransaction));
    let at_the_limit = block_on(
        Digest::zero(),
        1,
        vec![
            coinbase(SUBSIDY, 1, &owner),
            Transaction::new(vec![spend(digest(1), &a)], vec![output(5, 2, &owner)]),
        ],
    );
    assert_eq!(at_the_limit.calculate_miner_fees(&utxos), Ok(u64::MAX - 5));
}

#[test]
fn coinbase_must_pay_subsidy_plus_fees_exactly() {
    let a = key(1);
    let owner = a.public_key();
    let utxos = utxos_of(&[(digest(1), 100, &owner)]);
    let with_coinbase = |value: u64| {
        block_on(
            Digest::zero(),
            1,
            vec![
                coinbase(value, 1, &owner),
                Transaction::new(vec![spend(digest(1), &a)], vec![output(60, 2, &owner)]),
            ],
        )
    };
    assert_eq!(with_coinbase(SUBSIDY + 40).verify_coinbase_transaction(0, &utxos), Ok(()));
    assert_eq!(
        with_coinbase(SUBSIDY + 41).verify_coinbase_transaction(0, &utxos),
        Err(BtcError::InvalidTransaction)
    );
    assert_eq!(
        with_coinbase(SUBSIDY + 39).verify_coinbase_transaction(0, &utxos),
        Err(BtcError::InvalidTransaction)
    );
    assert_eq!(
        with_coinbase(SUBSIDY).verify_coinbase_transaction(0, &utxos),
        Err(BtcError::InvalidTransaction)
    );
    // After one halving the same block must pay half the subsidy.
    assert_eq!(
        with_coinbase(SUBSIDY + 40).verify_coinbase_transaction(210, &utxos),
        Err(BtcError::InvalidTransaction)
    );
    assert_eq!(with_coinbase(SUBSIDY / 2 + 40).verify_coinbase_transaction(210, &utxos), Ok(()));
    assert_eq!(with_coinbase(40).verify_coinbase_transaction(210 * 33, &utxos), Ok(()));
}

#[test]
fn coinbase_may_split_its_payment() {
    let owner = key(1).public_key();
    let utxos = UtxoSet::new();
    let block = block_on(
        Digest::zero(),
        1,
        vec![Transaction::new(
            vec![],
            vec![output(SUBSIDY - 7, 1, &owner), output(7, 2, &owner)],
        )],
    );
    assert_eq!(block.verify_coinbase_transaction(0, &utxos), Ok(()));
}

#[test]
fn coinbase_with_inputs_or_without_outputs_is_rejected() {
    let a = key(1);
    let owner = a.public_key();
    let utxos = utxos_of(&[(digest(1), 100, &owner)]);
    let with_input = block_on(
        Digest::zero(),
        1,
        vec![Transaction::new(vec![spend(digest(1), &a)], vec![output(SUBSIDY, 1, &owner)])],
    );
    assert_eq!(
        with_input.verify_coinbase_transaction(0, &utxos),
        Err(BtcError::InvalidTransaction)
    );
    let without_output = block_on(Digest::zero(), 1, vec![Transaction::new(vec![], vec![])]);
    assert_eq!(
        without_output.verify_coinbase_transaction(210 * 64, &utxos),
        Err(BtcError::InvalidTransaction)
    );
    let header = BlockHeader::new(
        Timestamp::new(0, 0),
        0,
        Digest::zero(),
        MerkleRoot::from_hash(Digest::zero()),
        U256::zero(),
    );
    assert_eq!(
        Block::new(header, vec![]).verify_coinbase_transaction(0, &utxos),
        Err(BtcError::InvalidTransaction)
    );
}

#[test]
fn block_without_transactions_fails_verification() {
    let header = BlockHeader::new(
        Timestamp::new(0, 0),
        0,
        Digest::zero(),
        MerkleRoot::from_hash(Digest::zero()),
        U256::zero(),
    );
    assert_eq!(
        Block::new(header, vec![]).verify_transactions(0, &UtxoSet::new()),
        Err(BtcError::InvalidTransaction)
    );
}

#[test]
fn valid_transactions_pass_verification() {
    let a = key(1);
    let b = key(2);
    let utxos = utxos_of(&[(digest(1), 100, &a.public_key()), (digest(2), 50, &b.public_key())]);
    let block = block_on(
        Digest::zero(),
        1,
        vec![
            coinbase(SUBSIDY + 30, 1, &a.public_key()),
            Transaction::new(vec![spend(digest(1), &a)], vec![output(90, 2, &b.public_key())]),
            Transaction::new(vec![spend(digest(2), &b)], vec![output(30, 3, &a.public_key())]),
        ],
    );
    assert_eq!(block.verify_transactions(0, &utxos), Ok(()));
}

#[test]
fn signature_by_another_key_is_rejected() {
    let a = key(1);
    let b = key(2);
    let utxos = utxos_of(&[(digest(1), 100, &a.public_key())]);
    let block = block_on(
        Digest::zero(),
        1,
        vec![
            coinbase(SUBSIDY + 10, 1, &a.public_key()),
            Transaction::new(vec![spend(digest(1), &b)], vec![output(90, 2, &b.public_key())]),
        ],
    );
    assert_eq!(block.verify_transactions(0, &utxos), Err(BtcError::InvalidSignature));
}

#[test]
fn signature_over_another_digest_is_rejected() {
    let a = key(1);
    let utxos = utxos_of(&[(digest(1), 100, &a.public_key())]);
    let input = TransactionInput {
        prev_transaction_output_hash: digest(1),
        signature: Signature::sign_output(&digest(2), &a).unwrap(),
    };
    let block = block_on(
        Digest::zero(),
        1,
        vec![
            coinbase(SUBSIDY + 10, 1, &a.public_key()),
            Transaction::new(vec![input], vec![output(90, 2, &a.public_key())]),
        ],
    );
    assert_eq!(block.verify_transactions(0, &utxos), Err(BtcError::InvalidSignature));
}

#[test]
fn transaction_that_creates_value_is_rejected() {
    let a = key(1);
    let owner = a.public_key();
    let utxos = utxos_of(&[(digest(1), 100, &owner), (digest(2), 50, &owner)]);
    // In total 150 is spent and 140 paid out, but the second transaction
    // pays out more than it takes in.
    let block = block_on(
        Digest::zero(),
        1,
        vec![
            coinbase(SUBSIDY + 10, 1, &owner),
            Transaction::new(vec![spend(digest(1), &a)], vec![output(60, 2, &owner)]),
            Transaction::new(vec![spend(digest(2), &a)], vec![output(80, 3, &owner)]),
        ],
    );
    assert_eq!(block.calculate_miner_fees(&utxos), Ok(10));
    assert_eq!(block.verify_transactions(0, &utxos), Err(BtcError::InvalidTransaction));
}

#[test]
fn first_rejected_transaction_decides() {
    let a = key(1);
    let b = key(2);
    let owner = a.public_key();
    let utxos = utxos_of(&[(digest(1), 100, &owner), (digest(2), 50, &owner)]);
    let creates_value =
        Transaction::new(vec![spend(digest(2), &a)], vec![output(80, 3, &owner)]);
    let badly_signed = Transaction::new(vec![spend(digest(1), &b)], vec![output(60, 2, &owner)]);
    let signature_first = block_on(
        Digest::zero(),
        1,
        vec![coinbase(SUBSIDY + 10, 1, &owner), badly_signed.clone(), creates_value.clone()],
    );
    assert_eq!(signature_first.verify_transactions(0, &utxos), Err(BtcError::InvalidSignature));
    let value_first = block_on(
        Digest::zero(),
        1,
        vec![coinbase(SUBSIDY + 10, 1, &owner), creates_value, badly_signed],
    );
    assert_eq!(value_first.verify_transactions(0, &utxos), Err(BtcError::InvalidTransaction));
}

#[test]
fn wrong_coinbase_is_reported_before_a_bad_signature() {
    let a = key(1);
    let b = key(2);
    let owner = a.public_key();
    let utxos = utxos_of(&[(digest(1), 100, &owner)]);
    let block = block_on(
        Digest::zero(),
        1,
        vec![
            coinbase(SUBSIDY, 1, &owner),
            Transaction::new(vec![spend(digest(1), &b)], vec![output(60, 2, &owner)]),
        ],
    );
    assert_eq!(block.verify_transactions(0, &utxos), Err(BtcError::InvalidTransaction));
}

#[test]
fn block_with_fees_is_accepted_at_its_height() {
    let a = key(1);
    let (mut chain, a_output) = chain_with_genesis(1);
    let off_by_one = block_on(
        tip(&chain),
        200,
        vec![
            coinbase(SUBSIDY + 1001, 2, &key(3).public_key()),
            Transaction::new(
                vec![spend(a_output, &a)],
                vec![output(SUBSIDY - 1000, 3, &key(2).public_key())],
            ),
        ],
    );
    assert_eq!(chain.add_block(off_by_one), Err(BtcError::InvalidTransaction));
    let exact = block_on(
        tip(&chain),
        200,
        vec![
            coinbase(SUBSIDY + 1000, 2, &key(3).public_key()),
            Transaction::new(
                vec![spend(a_output, &a)],
                vec![output(SUBSIDY - 1000, 3, &key(2).public_key())],
            ),
        ],
    );
    assert_eq!(chain.add_block(exact), Ok(()));
}

#[test]
fn badly_signed_block_leaves_the_chain_untouched() {
    let (mut chain, a_output) = chain_with_genesis(1);
    let block = block_on(
        tip(&chain),
        200,
        vec![
            coinbase(SUBSIDY, 2, &key(3).public_key()),
            Transaction::new(
                vec![spend(a_output, &key(2))],
                vec![output(SUBSIDY, 3, &key(2).public_key())],
            ),
        ],
    );
    assert_eq!(chain.add_block(block), Err(BtcError::InvalidSignature));
    assert_eq!(chain.block_height(), 1);
    assert_eq!(chain.utxos().keys(), vec![a_output]);
}

#[test]
fn rebuild_recovers_from_a_stale_set() {
    let a = key(1);
    let (mut chain, a_output) = chain_with_genesis(1);
    let payment = Transaction::new(
        vec![spend(a_output, &a)],
        vec![output(SUBSIDY, 3, &key(2).public_key())],
    );
    let payment_key = payment.hash();
    let reward = coinbase(SUBSIDY, 2, &key(3).public_key());
    let reward_key = reward.hash();
    assert_eq!(chain.add_block(block_on(tip(&chain), 200, vec![reward, payment])), Ok(()));

    // The blocks as stored, with a set that holds a stray entry and lacks the true ones.
    let stale = utxos_of(&[(digest(99), 1, &a.public_key()), (a_output, SUBSIDY, &a.public_key())]);
    let mut restored = Blockchain::from_parts(stale, chain.blocks().clone());
    assert_eq!(restored.block_height(), 2);
    assert!(restored.utxos().contains_key(&digest(99)));
    restored.rebuild_utxos();
    assert_eq!(restored.block_height(), 2);
    assert_eq!(restored.utxos().len(), 2);
    assert!(!restored.utxos().contains_key(&digest(99)));
    assert!(!restored.utxos().contains_key(&a_output));
    assert_eq!(restored.utxos().get(&payment_key).unwrap().value, SUBSIDY);
    assert_eq!(restored.utxos().get(&reward_key).unwrap().unique_id, 2);
}

#[test]
fn rebuild_of_an_empty_chain_empties_the_set() {
    let owner = key(1).public_key();
    let mut chain = Blockchain::from_parts(utxos_of(&[(digest(1), 5, &owner)]), vec![]);
    assert_eq!(chain.utxos().len(), 1);
    chain.rebuild_utxos();
    assert_eq!(chain.utxos().len(), 0);
    assert_eq!(chain.block_height(), 0);
}

#[test]
fn clones_hold_the_same_values() {
    let (chain, a_output) = chain_with_genesis(1);
    let copy = chain.clone();
    assert_eq!(copy.block_height(), 1);
    assert_eq!(copy.blocks()[0].hash(), chain.blocks()[0].hash());
    assert_eq!(copy.utxos().keys(), vec![a_output]);
    assert_eq!(copy.utxos().get(&a_output).unwrap().value, SUBSIDY);
    let set = chain.utxos().clone();
    assert_eq!(set.len(), 1);
    assert_eq!(set.get(&a_output).unwrap().unique_id, 1);
}

#[test]
fn errors_have_their_messages() {
    assert_eq!(BtcError::InvalidTransaction.message(), "Invalid Transaction");
    assert_eq!(BtcError::InvalidBlock.message(), "Invalid Block");
    assert_eq!(BtcError::InvalidBlockHeader.message(), "Invalid Block header");
    assert_eq!(BtcError::InvalidTransactionInput.message(), "Invalid transaction input");
    assert_eq!(BtcError::InvalidTransactionOutput.message(), "Invalid transaction output");
    assert_eq!(BtcError::InvalidMerkleRoot.message(), "Invalid Merkle root");
    assert_eq!(BtcError::InvalidHash.message(), "Invalid hash");
    assert_eq!(BtcError::InvalidSignature.message(), "Invalid signature");
    assert_eq!(BtcError::InvalidPublicKey.message(), "Invalid public key");
    assert_eq!(BtcError::InvalidPrivateKey.message(), "Invalid private key");
}
