//! The rules of the ledger, stated over the models of its entities: fees,
//! the block subsidy, what a block's transactions must satisfy, and how a
//! block changes the unspent-output set.

use vstd::prelude::*;
use vstd::arithmetic::power2::pow2;
use crate::crypto::ecdsa_verifies;
use crate::encoding::Encode;
use crate::error::BtcError;
use crate::sha256;
use crate::types::{
    block_hash, header_hash, output_hash, transaction_hash, BlockModel, InputModel, OutputModel,
    TransactionModel,
};
use crate::util::{merkle_root_of, MerkleRoot};
use crate::{HALVING_INTERVAL, INITIAL_REWARD};

verus! {

/// The unspent-output set as the rules see it.
pub type UtxoMap = Map<sha256::Hash, OutputModel>;

/// The sum of the values.
pub open spec fn seq_sum(values: Seq<u64>) -> nat
    decreases values.len(),
{
    if values.len() == 0 {
        0
    } else {
        seq_sum(values.drop_last()) + values.last() as nat
    }
}

/// The subsidy of the block at `height`: the initial reward in the smallest
/// unit, halved once for every full halving interval below the height.
pub open spec fn block_reward(height: u64) -> nat {
    (INITIAL_REWARD as nat * 100_000_000) / pow2((height / HALVING_INTERVAL) as nat)
}

/// The inputs of the transactions, one transaction after the other.
pub open spec fn inputs_of(transactions: Seq<TransactionModel>) -> Seq<InputModel>
    decreases transactions.len(),
{
    if transactions.len() == 0 {
        Seq::empty()
    } else {
        inputs_of(transactions.drop_last()) + transactions.last().inputs
    }
}

/// The outputs of the transactions, one transaction after the other.
pub open spec fn outputs_of(transactions: Seq<TransactionModel>) -> Seq<OutputModel>
    decreases transactions.len(),
{
    if transactions.len() == 0 {
        Seq::empty()
    } else {
        outputs_of(transactions.drop_last()) + transactions.last().outputs
    }
}

/// The transactions of a block but the coinbase transaction.
pub open spec fn spending(transactions: Seq<TransactionModel>) -> Seq<TransactionModel> {
    if transactions.len() == 0 {
        transactions
    } else {
        transactions.subrange(1, transactions.len() as int)
    }
}

/// The digests that the inputs refer to, in order.
pub open spec fn input_keys(inputs: Seq<InputModel>) -> Seq<sha256::Hash> {
    inputs.map_values(|i: InputModel| i.prev_transaction_output_hash)
}

/// The digests of the outputs, in order.
pub open spec fn output_hashes(outputs: Seq<OutputModel>) -> Seq<sha256::Hash> {
    outputs.map_values(|o: OutputModel| output_hash(o))
}

/// The values of the outputs that the inputs refer to, in order.
pub open spec fn input_values(utxos: UtxoMap, inputs: Seq<InputModel>) -> Seq<u64> {
    inputs.map_values(|i: InputModel| utxos[i.prev_transaction_output_hash].value)
}

/// The values of the outputs, in order.
pub open spec fn output_values(outputs: Seq<OutputModel>) -> Seq<u64> {
    outputs.map_values(|o: OutputModel| o.value)
}

/// Every input refers to an output that is unspent.
pub open spec fn inputs_known(utxos: UtxoMap, inputs: Seq<InputModel>) -> bool {
    forall|i: int|
        0 <= i < inputs.len() ==> utxos.contains_key(
            #[trigger] inputs[i].prev_transaction_output_hash,
        )
}

/// What the block's spending transactions take out of the set.
pub open spec fn total_spent(utxos: UtxoMap, transactions: Seq<TransactionModel>) -> nat {
    seq_sum(input_values(utxos, inputs_of(spending(transactions))))
}

/// What the block's spending transactions pay out.
pub open spec fn total_created(transactions: Seq<TransactionModel>) -> nat {
    seq_sum(output_values(outputs_of(spending(transactions))))
}

/// Whether the block's fees are defined: every input of a spending
/// transaction refers to an unspent output, no two of them to the same one,
/// no two outputs of spending transactions have the same digest, the amount
/// spent fits in 64 bits and covers the amount paid out.
pub open spec fn fees_defined(utxos: UtxoMap, transactions: Seq<TransactionModel>) -> bool {
    &&& inputs_known(utxos, inputs_of(spending(transactions)))
    &&& input_keys(inputs_of(spending(transactions))).no_duplicates()
    &&& output_hashes(outputs_of(spending(transactions))).no_duplicates()
    &&& total_created(transactions) <= total_spent(utxos, transactions) <= u64::MAX
}

/// The block's fees: what is spent and not paid out.
pub open spec fn miner_fees(utxos: UtxoMap, transactions: Seq<TransactionModel>) -> nat {
    (total_spent(utxos, transactions) - total_created(transactions)) as nat
}

/// The first transaction has no input and at least one output, the fees are
/// defined, and the first transaction pays out the subsidy plus the fees,
/// no more and no less.
pub open spec fn coinbase_valid(
    utxos: UtxoMap,
    transactions: Seq<TransactionModel>,
    height: u64,
) -> bool {
    &&& transactions.len() > 0
    &&& transactions[0].inputs.len() == 0
    &&& transactions[0].outputs.len() > 0
    &&& fees_defined(utxos, transactions)
    &&& seq_sum(output_values(transactions[0].outputs)) == block_reward(height) + miner_fees(
        utxos,
        transactions,
    )
}

/// The input carries a signature over the digest it refers to that verifies
/// under the key of the output it spends.
pub open spec fn input_authorized(utxos: UtxoMap, input: InputModel) -> bool {
    ecdsa_verifies(
        input.signature,
        input.prev_transaction_output_hash.spec_bytes(),
        utxos[input.prev_transaction_output_hash].pub_key,
    )
}

pub open spec fn all_authorized(utxos: UtxoMap, inputs: Seq<InputModel>) -> bool {
    forall|i: int| 0 <= i < inputs.len() ==> input_authorized(utxos, #[trigger] inputs[i])
}

/// What is decided of one spending transaction: a signature that does not
/// verify is reported first, then a transaction that pays out more than it
/// takes in.
pub open spec fn transaction_verdict(utxos: UtxoMap, t: TransactionModel) -> Result<(), BtcError> {
    if !all_authorized(utxos, t.inputs) {
        Err(BtcError::InvalidSignature)
    } else if seq_sum(input_values(utxos, t.inputs)) < seq_sum(output_values(t.outputs)) {
        Err(BtcError::InvalidTransaction)
    } else {
        Ok(())
    }
}

/// What is decided of the transactions from index `from` on: the verdict of
/// the first one that is rejected.
pub open spec fn spending_verdict(
    utxos: UtxoMap,
    transactions: Seq<TransactionModel>,
    from: int,
) -> Result<(), BtcError>
    decreases transactions.len() - from,
{
    if from >= transactions.len() {
        Ok(())
    } else {
        match transaction_verdict(utxos, transactions[from]) {
            Err(e) => Err(e),
            Ok(_) => spending_verdict(utxos, transactions, from + 1),
        }
    }
}

/// What is decided of a block's transactions at a height.
pub open spec fn transactions_verdict(
    utxos: UtxoMap,
    transactions: Seq<TransactionModel>,
    height: u64,
) -> Result<(), BtcError> {
    if !coinbase_valid(utxos, transactions, height) {
        Err(BtcError::InvalidTransaction)
    } else {
        spending_verdict(utxos, transactions, 1)
    }
}

/// What is decided of a candidate block, given the blocks already in the
/// chain and the unspent outputs. An empty chain asks only for the zero
/// digest as predecessor. Otherwise the checks come in this order: the link
/// to the tip, the target, the Merkle root, the timestamp, the transactions.
pub open spec fn block_verdict(
    blocks: Seq<BlockModel>,
    utxos: UtxoMap,
    block: BlockModel,
) -> Result<(), BtcError> {
    if blocks.len() == 0 {
        if block.header.prev_block_hash == sha256::Hash::spec_zero() {
            Ok(())
        } else {
            Err(BtcError::InvalidBlock)
        }
    } else if block.header.prev_block_hash != block_hash(blocks.last()) {
        Err(BtcError::InvalidBlock)
    } else if header_hash(block.header).number().value() > block.header.target.value() {
        Err(BtcError::InvalidBlock)
    } else if block.transactions.len() == 0 || block.header.merkle_root
        != MerkleRoot::from_digest(merkle_root_of(block.transactions)) {
        Err(BtcError::InvalidMerkleRoot)
    } else if !blocks.last().header.timestamp.precedes(block.header.timestamp) {
        Err(BtcError::InvalidBlock)
    } else {
        transactions_verdict(utxos, block.transactions, blocks.len() as u64)
    }
}

/// The set after a transaction: what its inputs refer to is gone, and its
/// digest maps to the last of its outputs.
pub open spec fn apply_transaction(utxos: UtxoMap, t: TransactionModel) -> UtxoMap {
    let pruned = utxos.remove_keys(input_keys(t.inputs).to_set());
    if t.outputs.len() == 0 {
        pruned
    } else {
        pruned.insert(transaction_hash(t), t.outputs.last())
    }
}

/// The set after the transactions, applied in order.
pub open spec fn apply_transactions(utxos: UtxoMap, transactions: Seq<TransactionModel>) -> UtxoMap
    decreases transactions.len(),
{
    if transactions.len() == 0 {
        utxos
    } else {
        apply_transaction(
            apply_transactions(utxos, transactions.drop_last()),
            transactions.last(),
        )
    }
}

/// The set after a block.
pub open spec fn apply_block(utxos: UtxoMap, block: BlockModel) -> UtxoMap {
    apply_transactions(utxos, block.transactions)
}

/// The set that the blocks give when they are replayed in order, starting
/// from the empty set.
pub open spec fn replay(blocks: Seq<BlockModel>) -> UtxoMap
    decreases blocks.len(),
{
    if blocks.len() == 0 {
        Map::empty()
    } else {
        apply_block(replay(blocks.drop_last()), blocks.last())
    }
}

/// The sum of the values of a vector.
pub fn total_value(values: &Vec<u64>) -> (total: u128)
    ensures
        total == seq_sum(values@),
{
    let mut total: u128 = 0;
    let mut i: usize = 0;
    while i < values.len()
        invariant
            i <= values.len(),
            total == seq_sum(values@.subrange(0, i as int)),
            total <= i * 0xffff_ffff_ffff_ffff,
        decreases values.len() - i,
    {
        proof {
            let next = values@.subrange(0, i + 1);
            assert(next.drop_last() =~= values@.subrange(0, i as int));
        }
        total = total + values[i] as u128;
        i += 1;
    }
    assert(values@.subrange(0, i as int) =~= values@);
    total
}

/// Whether some digest occurs twice in the list.
pub fn has_duplicates(list: &Vec<sha256::Hash>) -> (r: bool)
    ensures
        r == !list@.no_duplicates(),
{
    let mut j: usize = 0;
    while j < list.len()
        invariant
            j <= list.len(),
            forall|a: int, b: int| 0 <= a < b < j ==> list@[a] != list@[b],
        decreases list.len() - j,
    {
        let mut k: usize = 0;
        while k < j
            invariant
                k <= j,
                j < list.len(),
                forall|a: int| 0 <= a < k ==> list@[a] != list@[j as int],
            decreases j - k,
        {
            if list[k] == list[j] {
                return true;
            }
            k += 1;
        }
        j += 1;
    }
    assert forall|a: int, b: int| 0 <= a < list@.len() && 0 <= b < list@.len() && a != b implies list@[a]
        != list@[b] by {
        if a < b {
            assert(list@[a] != list@[b]);
        } else {
            assert(list@[b] != list@[a]);
        }
    }
    false
}

/// Computes the subsidy of the block at `height`.
pub fn block_subsidy(height: u64) -> (r: u64)
    ensures
        r == block_reward(height),
{
    let halvings: u64 = height / HALVING_INTERVAL;
    let initial: u64 = INITIAL_REWARD * 100_000_000;
    if halvings >= 64 {
        proof {
            vstd::arithmetic::power2::lemma2_to64();
            if halvings > 64 {
                vstd::arithmetic::power2::lemma_pow2_strictly_increases(64, halvings as nat);
            }
            vstd::arithmetic::div_mod::lemma_basic_div(initial as int, pow2(halvings as nat) as int);
        }
        0
    } else {
        proof {
            vstd::bits::lemma_u64_shr_is_div(initial, halvings);
        }
        initial >> halvings
    }
}

// ----- what follows from the rules -----

/// Where the input at place `i` of the transaction at place `t` stands
/// among the inputs of the transactions.
pub open spec fn input_position(transactions: Seq<TransactionModel>, t: int, i: int) -> int {
    inputs_of(transactions.subrange(0, t)).len() + i
}

/// The input at place `i` of the transaction at place `t` stands at its
/// position among the inputs of the transactions.
pub proof fn lemma_input_position(transactions: Seq<TransactionModel>, t: int, i: int)
    requires
        0 <= t < transactions.len(),
        0 <= i < transactions[t].inputs.len(),
    ensures
        0 <= input_position(transactions, t, i) < inputs_of(transactions).len(),
        inputs_of(transactions)[input_position(transactions, t, i)] == transactions[t].inputs[i],
    decreases transactions.len(),
{
    let front = transactions.drop_last();
    let last = transactions.last().inputs;
    if t == transactions.len() - 1 {
        assert(transactions.subrange(0, t) =~= front);
    } else {
        lemma_input_position(front, t, i);
        assert(front.subrange(0, t) =~= transactions.subrange(0, t));
        let p = input_position(front, t, i);
        assert((inputs_of(front) + last)[p] == inputs_of(front)[p]);
    }
}

/// A longer prefix of the transactions has at least as many inputs.
pub proof fn lemma_inputs_grow(transactions: Seq<TransactionModel>, a: int, b: int)
    requires
        0 <= a <= b <= transactions.len(),
    ensures
        inputs_of(transactions.subrange(0, a)).len() <= inputs_of(
            transactions.subrange(0, b),
        ).len(),
    decreases b - a,
{
    if a < b {
        lemma_inputs_grow(transactions, a, b - 1);
        assert(transactions.subrange(0, b).drop_last() =~= transactions.subrange(0, b - 1));
    }
}

/// Inputs at different places stand at different positions.
pub proof fn lemma_positions_differ(
    transactions: Seq<TransactionModel>,
    t1: int,
    i1: int,
    t2: int,
    i2: int,
)
    requires
        0 <= t1 < transactions.len(),
        0 <= i1 < transactions[t1].inputs.len(),
        0 <= t2 < transactions.len(),
        0 <= i2 < transactions[t2].inputs.len(),
        t1 != t2 || i1 != i2,
    ensures
        input_position(transactions, t1, i1) != input_position(transactions, t2, i2),
{
    if t1 < t2 {
        assert(transactions.subrange(0, t1 + 1).drop_last() =~= transactions.subrange(0, t1));
        lemma_inputs_grow(transactions, t1 + 1, t2);
    } else if t2 < t1 {
        assert(transactions.subrange(0, t2 + 1).drop_last() =~= transactions.subrange(0, t2));
        lemma_inputs_grow(transactions, t2 + 1, t1);
    }
}

/// The input at place `i` of the transaction at place `t` is one of the
/// inputs of the transactions.
pub proof fn lemma_input_listed(transactions: Seq<TransactionModel>, t: int, i: int)
    requires
        0 <= t < transactions.len(),
        0 <= i < transactions[t].inputs.len(),
    ensures
        inputs_of(transactions).contains(transactions[t].inputs[i]),
{
    lemma_input_position(transactions, t, i);
}

/// An empty chain accepts a block exactly when the block names the zero
/// digest as its predecessor, whatever its target, timestamp, Merkle root
/// and transactions are.
pub proof fn lemma_genesis_acceptance(utxos: UtxoMap, block: BlockModel)
    ensures
        block.header.prev_block_hash == sha256::Hash::spec_zero() ==> block_verdict(
            Seq::empty(),
            utxos,
            block,
        ) == Ok::<(), BtcError>(()),
        block.header.prev_block_hash != sha256::Hash::spec_zero() ==> block_verdict(
            Seq::empty(),
            utxos,
            block,
        ) == Err::<(), BtcError>(BtcError::InvalidBlock),
{
}

/// A chain that holds a block accepts no block on the strength of the zero
/// digest: what it accepts names the tip as its predecessor, meets its
/// target, commits to its transactions and is later than the tip.
pub proof fn lemma_later_blocks_are_checked(
    blocks: Seq<BlockModel>,
    utxos: UtxoMap,
    block: BlockModel,
)
    requires
        blocks.len() > 0,
        block_verdict(blocks, utxos, block) is Ok,
    ensures
        block.header.prev_block_hash == block_hash(blocks.last()),
        header_hash(block.header).number().value() <= block.header.target.value(),
        block.transactions.len() > 0,
        block.header.merkle_root == MerkleRoot::from_digest(merkle_root_of(block.transactions)),
        blocks.last().header.timestamp.precedes(block.header.timestamp),
        transactions_verdict(utxos, block.transactions, blocks.len() as u64) is Ok,
{
}

/// A block that does not name the tip's digest as its predecessor is
/// rejected as an invalid block, whatever else holds of it.
pub proof fn lemma_linkage_rejection(blocks: Seq<BlockModel>, utxos: UtxoMap, block: BlockModel)
    requires
        blocks.len() > 0,
        block.header.prev_block_hash != block_hash(blocks.last()),
    ensures
        block_verdict(blocks, utxos, block) == Err::<(), BtcError>(BtcError::InvalidBlock),
{
}

/// Transactions in which two inputs refer to the same digest are rejected
/// as invalid, whether or not the signatures verify.
pub proof fn lemma_double_spend_rejection(
    utxos: UtxoMap,
    transactions: Seq<TransactionModel>,
    height: u64,
    t1: int,
    i1: int,
    t2: int,
    i2: int,
)
    requires
        0 <= t1 < transactions.len(),
        0 <= i1 < transactions[t1].inputs.len(),
        0 <= t2 < transactions.len(),
        0 <= i2 < transactions[t2].inputs.len(),
        t1 != t2 || i1 != i2,
        transactions[t1].inputs[i1].prev_transaction_output_hash
            == transactions[t2].inputs[i2].prev_transaction_output_hash,
    ensures
        transactions_verdict(utxos, transactions, height) == Err::<(), BtcError>(
            BtcError::InvalidTransaction,
        ),
{
    if t1 >= 1 && t2 >= 1 {
        let rest = spending(transactions);
        assert(rest[t1 - 1] == transactions[t1]);
        assert(rest[t2 - 1] == transactions[t2]);
        lemma_input_position(rest, t1 - 1, i1);
        lemma_input_position(rest, t2 - 1, i2);
        lemma_positions_differ(rest, t1 - 1, i1, t2 - 1, i2);
        let keys = input_keys(inputs_of(rest));
        let p1 = input_position(rest, t1 - 1, i1);
        let p2 = input_position(rest, t2 - 1, i2);
        assert(keys[p1] == keys[p2]);
        assert(!keys.no_duplicates());
    }
}

/// A block of a chain that holds a block is rejected where two of its
/// inputs refer to the same digest.
pub proof fn lemma_double_spend_block_rejection(
    blocks: Seq<BlockModel>,
    utxos: UtxoMap,
    block: BlockModel,
    t1: int,
    i1: int,
    t2: int,
    i2: int,
)
    requires
        blocks.len() > 0,
        0 <= t1 < block.transactions.len(),
        0 <= i1 < block.transactions[t1].inputs.len(),
        0 <= t2 < block.transactions.len(),
        0 <= i2 < block.transactions[t2].inputs.len(),
        t1 != t2 || i1 != i2,
        block.transactions[t1].inputs[i1].prev_transaction_output_hash
            == block.transactions[t2].inputs[i2].prev_transaction_output_hash,
    ensures
        block_verdict(blocks, utxos, block) is Err,
{
    lemma_double_spend_rejection(utxos, block.transactions, blocks.len() as u64, t1, i1, t2, i2);
}

/// Transactions are accepted only where the first of them pays out the
/// subsidy of the height plus the fees: any other sum, one unit more or one
/// unit less included, is rejected as an invalid transaction.
pub proof fn lemma_coinbase_arithmetic(
    utxos: UtxoMap,
    transactions: Seq<TransactionModel>,
    height: u64,
)
    requires
        transactions.len() > 0,
    ensures
        transactions_verdict(utxos, transactions, height) is Ok ==> seq_sum(
            output_values(transactions[0].outputs),
        ) == INITIAL_REWARD as nat * 100_000_000 / pow2((height / HALVING_INTERVAL) as nat)
            + miner_fees(utxos, transactions),
        seq_sum(output_values(transactions[0].outputs)) != block_reward(height) + miner_fees(
            utxos,
            transactions,
        ) ==> transactions_verdict(utxos, transactions, height) == Err::<(), BtcError>(
            BtcError::InvalidTransaction,
        ),
{
}

/// The digest of a value is determined by its fields: values with the same
/// fields have the same digest.
pub proof fn lemma_hash_determined<A: Encode, B: Encode>(a: &A, b: &B)
    requires
        a.spec_fields() == b.spec_fields(),
    ensures
        sha256::Hash::spec_hash(a.spec_fields()) == sha256::Hash::spec_hash(b.spec_fields()),
{
}

/// Equal transactions have equal digests, and so have equal outputs, equal
/// headers and equal blocks.
pub proof fn lemma_equal_values_hash_equal(
    t1: TransactionModel,
    t2: TransactionModel,
    o1: OutputModel,
    o2: OutputModel,
    b1: BlockModel,
    b2: BlockModel,
)
    ensures
        t1 == t2 ==> transaction_hash(t1) == transaction_hash(t2),
        o1 == o2 ==> output_hash(o1) == output_hash(o2),
        b1 == b2 ==> block_hash(b1) == block_hash(b2),
        b1.header == b2.header ==> header_hash(b1.header) == header_hash(b2.header),
{
}

/// Replaying a chain with one more block gives what that block makes of the
/// replay of the chain.
pub proof fn lemma_replay_step(blocks: Seq<BlockModel>, block: BlockModel)
    ensures
        replay(blocks.push(block)) == apply_block(replay(blocks), block),
{
    assert(blocks.push(block).drop_last() =~= blocks);
}

} // verus!
