//! The validation engine: transaction verification and the chain that
//! accepts or rejects candidate blocks.

use vstd::prelude::*;
use crate::error::BtcError;
use crate::rules::{
    apply_block, apply_transaction, apply_transactions, block_subsidy, block_verdict,
    coinbase_valid, fees_defined, has_duplicates, input_authorized, input_keys, input_values,
    inputs_known, inputs_of, lemma_input_listed, miner_fees, output_hashes, output_values,
    outputs_of, replay, spending, spending_verdict, total_value, transactions_verdict, UtxoMap,
};
use crate::sha256;
use crate::types::{
    block_models, output_models, Block, BlockModel, Transaction, TransactionModel,
    TransactionOutput,
};
use crate::util::MerkleRoot;
use crate::utxo::UtxoSet;

verus! {

/// The values of the outputs, in order.
fn output_value_list(outputs: &Vec<TransactionOutput>) -> (values: Vec<u64>)
    ensures
        values@ == output_values(output_models(outputs@)),
{
    let mut values: Vec<u64> = Vec::new();
    let mut i: usize = 0;
    while i < outputs.len()
        invariant
            i <= outputs.len(),
            values@ == output_values(output_models(outputs@)).subrange(0, i as int),
        decreases outputs.len() - i,
    {
        values.push(outputs[i].value);
        i += 1;
        assert(values@ =~= output_values(output_models(outputs@)).subrange(0, i as int));
    }
    assert(output_values(output_models(outputs@)).subrange(0, i as int) =~= output_values(
        output_models(outputs@),
    ));
    values
}

impl Block {
    /// The digests that the inputs of the spending transactions refer to.
    fn spent_keys(&self) -> (keys: Vec<sha256::Hash>)
        ensures
            keys@ == input_keys(inputs_of(spending(self@.transactions))),
    {
        let ghost txs = self@.transactions;
        let mut keys: Vec<sha256::Hash> = Vec::new();
        if self.transactions.len() == 0 {
            assert(keys@ =~= input_keys(inputs_of(spending(txs))));
            return keys;
        }
        let mut t: usize = 1;
        assert(keys@ =~= input_keys(inputs_of(txs.subrange(1, 1))));
        while t < self.transactions.len()
            invariant
                1 <= t <= self.transactions.len(),
                txs == self@.transactions,
                keys@ == input_keys(inputs_of(txs.subrange(1, t as int))),
            decreases self.transactions.len() - t,
        {
            let tx = &self.transactions[t];
            let ghost base = inputs_of(txs.subrange(1, t as int));
            let mut i: usize = 0;
            assert(keys@ =~= input_keys(base + txs[t as int].inputs.subrange(0, 0)));
            while i < tx.inputs.len()
                invariant
                    i <= tx.inputs.len(),
                    t < self.transactions.len(),
                    txs == self@.transactions,
                    *tx == self.transactions@[t as int],
                    keys@ == input_keys(base + txs[t as int].inputs.subrange(0, i as int)),
                decreases tx.inputs.len() - i,
            {
                keys.push(tx.inputs[i].prev_transaction_output_hash);
                i += 1;
                assert(keys@ =~= input_keys(base + txs[t as int].inputs.subrange(0, i as int)));
            }
            proof {
                assert(txs[t as int].inputs.subrange(0, i as int) =~= txs[t as int].inputs);
                let next = txs.subrange(1, t + 1);
                assert(next.drop_last() =~= txs.subrange(1, t as int));
                assert(next.last() == txs[t as int]);
            }
            t += 1;
        }
        assert(txs.subrange(1, t as int) =~= spending(txs));
        keys
    }

    /// The digests and the values of the outputs of the spending
    /// transactions.
    fn created(&self) -> (r: (Vec<sha256::Hash>, Vec<u64>))
        ensures
            r.0@ == output_hashes(outputs_of(spending(self@.transactions))),
            r.1@ == output_values(outputs_of(spending(self@.transactions))),
    {
        let ghost txs = self@.transactions;
        let mut hashes: Vec<sha256::Hash> = Vec::new();
        let mut values: Vec<u64> = Vec::new();
        if self.transactions.len() == 0 {
            assert(hashes@ =~= output_hashes(outputs_of(spending(txs))));
            assert(values@ =~= output_values(outputs_of(spending(txs))));
            return (hashes, values);
        }
        let mut t: usize = 1;
        assert(hashes@ =~= output_hashes(outputs_of(txs.subrange(1, 1))));
        assert(values@ =~= output_values(outputs_of(txs.subrange(1, 1))));
        while t < self.transactions.len()
            invariant
                1 <= t <= self.transactions.len(),
                txs == self@.transactions,
                hashes@ == output_hashes(outputs_of(txs.subrange(1, t as int))),
                values@ == output_values(outputs_of(txs.subrange(1, t as int))),
            decreases self.transactions.len() - t,
        {
            let tx = &self.transactions[t];
            let ghost base = outputs_of(txs.subrange(1, t as int));
            let mut i: usize = 0;
            assert(hashes@ =~= output_hashes(base + txs[t as int].outputs.subrange(0, 0)));
            assert(values@ =~= output_values(base + txs[t as int].outputs.subrange(0, 0)));
            while i < tx.outputs.len()
                invariant
                    i <= tx.outputs.len(),
                    t < self.transactions.len(),
                    txs == self@.transactions,
                    *tx == self.transactions@[t as int],
                    hashes@ == output_hashes(base + txs[t as int].outputs.subrange(0, i as int)),
                    values@ == output_values(base + txs[t as int].outputs.subrange(0, i as int)),
                decreases tx.outputs.len() - i,
            {
                hashes.push(tx.outputs[i].hash());
                values.push(tx.outputs[i].value);
                i += 1;
                assert(hashes@ =~= output_hashes(
                    base + txs[t as int].outputs.subrange(0, i as int),
                ));
                assert(values@ =~= output_values(
                    base + txs[t as int].outputs.subrange(0, i as int),
                ));
            }
            proof {
                assert(txs[t as int].outputs.subrange(0, i as int) =~= txs[t as int].outputs);
                let next = txs.subrange(1, t + 1);
                assert(next.drop_last() =~= txs.subrange(1, t as int));
                assert(next.last() == txs[t as int]);
            }
            t += 1;
        }
        assert(txs.subrange(1, t as int) =~= spending(txs));
        (hashes, values)
    }

    /// The fees of the block: what its spending transactions take out of
    /// `utxos` and do not pay out.
    pub fn calculate_miner_fees(&self, utxos: &UtxoSet) -> (r: Result<u64, BtcError>)
        ensures
            match r {
                Ok(fees) => fees_defined(utxos@, self@.transactions) && fees == miner_fees(
                    utxos@,
                    self@.transactions,
                ),
                Err(e) => !fees_defined(utxos@, self@.transactions) && e
                    == BtcError::InvalidTransaction,
            },
    {
        let ghost inputs = inputs_of(spending(self@.transactions));
        let keys = self.spent_keys();
        let mut values_in: Vec<u64> = Vec::new();
        let mut j: usize = 0;
        while j < keys.len()
            invariant
                j <= keys.len(),
                inputs == inputs_of(spending(self@.transactions)),
                keys@ == input_keys(inputs),
                forall|k: int|
                    0 <= k < j ==> utxos@.contains_key(
                        #[trigger] inputs[k].prev_transaction_output_hash,
                    ),
                values_in@ == input_values(utxos@, inputs).subrange(0, j as int),
            decreases keys.len() - j,
        {
            match utxos.get(&keys[j]) {
                None => {
                    assert(keys@[j as int] == inputs[j as int].prev_transaction_output_hash);
                    assert(!inputs_known(utxos@, inputs));
                    return Err(BtcError::InvalidTransaction);
                },
                Some(prev_output) => {
                    values_in.push(prev_output.value);
                },
            }
            j += 1;
            assert(values_in@ =~= input_values(utxos@, inputs).subrange(0, j as int));
        }
        assert(input_values(utxos@, inputs).subrange(0, j as int) =~= input_values(utxos@, inputs));
        if has_duplicates(&keys) {
            return Err(BtcError::InvalidTransaction);
        }
        let (hashes, values_out) = self.created();
        if has_duplicates(&hashes) {
            return Err(BtcError::InvalidTransaction);
        }
        let input_value = total_value(&values_in);
        let output_value = total_value(&values_out);
        if input_value > u64::MAX as u128 || output_value > input_value {
            return Err(BtcError::InvalidTransaction);
        }
        Ok((input_value - output_value) as u64)
    }

    /// Checks the first transaction of the block against the subsidy at
    /// `predicted_block_height` and the block's fees.
    pub fn verify_coinbase_transaction(&self, predicted_block_height: u64, utxos: &UtxoSet) -> (r:
        Result<(), BtcError>)
        ensures
            coinbase_valid(utxos@, self@.transactions, predicted_block_height) ==> r == Ok::<
                (),
                BtcError,
            >(()),
            !coinbase_valid(utxos@, self@.transactions, predicted_block_height) ==> r == Err::<
                (),
                BtcError,
            >(BtcError::InvalidTransaction),
    {
        if self.transactions.len() == 0 {
            return Err(BtcError::InvalidTransaction);
        }
        let coinbase_transaction = &self.transactions[0];
        if coinbase_transaction.inputs.len() != 0 {
            return Err(BtcError::InvalidTransaction);
        }
        if coinbase_transaction.outputs.len() == 0 {
            return Err(BtcError::InvalidTransaction);
        }
        let miner_fees = match self.calculate_miner_fees(utxos) {
            Ok(fees) => fees,
            Err(e) => {
                return Err(e);
            },
        };
        let block_reward = block_subsidy(predicted_block_height);
        let values = output_value_list(&coinbase_transaction.outputs);
        let total_coinbase_outputs = total_value(&values);
        if total_coinbase_outputs != block_reward as u128 + miner_fees as u128 {
            return Err(BtcError::InvalidTransaction);
        }
        Ok(())
    }

    /// Checks the transactions of the block against `utxos`, for a block
    /// that will stand at `predicted_block_height`.
    pub fn verify_transactions(&self, predicted_block_height: u64, utxos: &UtxoSet) -> (r: Result<
        (),
        BtcError,
    >)
        ensures
            r == transactions_verdict(utxos@, self@.transactions, predicted_block_height),
    {
        let ghost txs = self@.transactions;
        if self.transactions.len() == 0 {
            return Err(BtcError::InvalidTransaction);
        }
        match self.verify_coinbase_transaction(predicted_block_height, utxos) {
            Err(e) => {
                return Err(e);
            },
            Ok(_) => {},
        }
        let mut t: usize = 1;
        while t < self.transactions.len()
            invariant
                1 <= t <= self.transactions.len(),
                txs == self@.transactions,
                coinbase_valid(utxos@, txs, predicted_block_height),
                spending_verdict(utxos@, txs, t as int) == spending_verdict(utxos@, txs, 1),
            decreases self.transactions.len() - t,
        {
            let transaction = &self.transactions[t];
            let mut values_in: Vec<u64> = Vec::new();
            let mut i: usize = 0;
            while i < transaction.inputs.len()
                invariant
                    i <= transaction.inputs.len(),
                    1 <= t < self.transactions.len(),
                    txs == self@.transactions,
                    *transaction == self.transactions@[t as int],
                    inputs_known(utxos@, inputs_of(spending(txs))),
                    coinbase_valid(utxos@, txs, predicted_block_height),
                    spending_verdict(utxos@, txs, t as int) == spending_verdict(utxos@, txs, 1),
                    forall|k: int|
                        0 <= k < i ==> input_authorized(utxos@, #[trigger] txs[t as int].inputs[k]),
                    values_in@ == input_values(utxos@, txs[t as int].inputs).subrange(0, i as int),
                decreases transaction.inputs.len() - i,
            {
                let input = &transaction.inputs[i];
                proof {
                    let rest = spending(txs);
                    assert(rest[t - 1] == txs[t as int]);
                    lemma_input_listed(rest, t - 1, i as int);
                    let k = choose|k: int|
                        0 <= k < inputs_of(rest).len() && inputs_of(rest)[k] == txs[t as int].inputs[i as int];
                    assert(utxos@.contains_key(inputs_of(rest)[k].prev_transaction_output_hash));
                }
                match utxos.get(&input.prev_transaction_output_hash) {
                    None => {
                        // Excluded by the coinbase check, which looked every input up.
                        return Err(BtcError::InvalidTransaction);
                    },
                    Some(prev_out) => {
                        if !input.signature.verify(
                            &input.prev_transaction_output_hash,
                            &prev_out.pub_key,
                        ) {
                            proof {
                                assert(!input_authorized(utxos@, txs[t as int].inputs[i as int]));
                            }
                            return Err(BtcError::InvalidSignature);
                        }
                        values_in.push(prev_out.value);
                    },
                }
                i += 1;
                assert(values_in@ =~= input_values(utxos@, txs[t as int].inputs).subrange(
                    0,
                    i as int,
                ));
            }
            assert(input_values(utxos@, txs[t as int].inputs).subrange(0, i as int)
                =~= input_values(utxos@, txs[t as int].inputs));
            let values_out = output_value_list(&transaction.outputs);
            let input_value = total_value(&values_in);
            let output_value = total_value(&values_out);
            if input_value < output_value {
                return Err(BtcError::InvalidTransaction);
            }
            t += 1;
        }
        Ok(())
    }
}

/// Applies one transaction to the set.
fn apply_transaction_to(utxos: &mut UtxoSet, transaction: &Transaction)
    ensures
        final(utxos)@ == apply_transaction(old(utxos)@, transaction@),
{
    let ghost start = utxos@;
    let ghost keys = input_keys(transaction@.inputs);
    let mut i: usize = 0;
    assert(utxos@ =~= start.remove_keys(keys.subrange(0, 0).to_set()));
    while i < transaction.inputs.len()
        invariant
            i <= transaction.inputs.len(),
            keys == input_keys(transaction@.inputs),
            utxos@ == start.remove_keys(keys.subrange(0, i as int).to_set()),
        decreases transaction.inputs.len() - i,
    {
        utxos.remove(&transaction.inputs[i].prev_transaction_output_hash);
        proof {
            let before = keys.subrange(0, i as int);
            let after = keys.subrange(0, i + 1);
            assert(after =~= before.push(keys[i as int]));
            assert forall|k: sha256::Hash| after.to_set().contains(k) <==> (before.to_set().contains(
                k,
            ) || k == keys[i as int]) by {
                vstd::seq_lib::lemma_seq_contains_after_push(before, keys[i as int], k);
            }
            assert(utxos@ =~= start.remove_keys(after.to_set()));
        }
        i += 1;
    }
    assert(keys.subrange(0, i as int) =~= keys);
    let ghost pruned = utxos@;
    if transaction.outputs.len() > 0 {
        let key = transaction.hash();
        let mut j: usize = 0;
        while j < transaction.outputs.len()
            invariant
                j <= transaction.outputs.len(),
                j == 0 ==> utxos@ == pruned,
                j > 0 ==> utxos@ == pruned.insert(key, transaction.outputs@[j - 1]@),
            decreases transaction.outputs.len() - j,
        {
            utxos.insert(key, transaction.outputs[j].clone());
            j += 1;
            assert(utxos@ =~= pruned.insert(key, transaction.outputs@[j - 1]@));
        }
    }
}

/// Applies the transactions of a block to the set, in order.
fn apply_block_to(utxos: &mut UtxoSet, block: &Block)
    ensures
        final(utxos)@ == apply_block(old(utxos)@, block@),
{
    let ghost start = utxos@;
    let ghost txs = block@.transactions;
    let mut t: usize = 0;
    assert(txs.subrange(0, 0) =~= Seq::<TransactionModel>::empty());
    while t < block.transactions.len()
        invariant
            t <= block.transactions.len(),
            txs == block@.transactions,
            utxos@ == apply_transactions(start, txs.subrange(0, t as int)),
        decreases block.transactions.len() - t,
    {
        apply_transaction_to(utxos, &block.transactions[t]);
        proof {
            let next = txs.subrange(0, t + 1);
            assert(next.drop_last() =~= txs.subrange(0, t as int));
            assert(next.last() == block.transactions@[t as int]@);
        }
        t += 1;
    }
    assert(txs.subrange(0, t as int) =~= txs);
}

/// An append-only chain of blocks with its unspent-output set.
#[derive(Debug)]
pub struct Blockchain {
    utxos: UtxoSet,
    blocks: Vec<Block>,
}

/// What a chain holds.
pub struct ChainModel {
    pub blocks: Seq<BlockModel>,
    pub utxos: UtxoMap,
}

impl View for Blockchain {
    type V = ChainModel;

    closed spec fn view(&self) -> ChainModel {
        ChainModel { blocks: block_models(self.blocks@), utxos: self.utxos@ }
    }
}

impl Clone for Blockchain {
    fn clone(&self) -> (r: Self)
        ensures
            r@ == self@,
    {
        let mut blocks: Vec<Block> = Vec::new();
        let mut i: usize = 0;
        while i < self.blocks.len()
            invariant
                i <= self.blocks.len(),
                block_models(blocks@) == block_models(self.blocks@).subrange(0, i as int),
            decreases self.blocks.len() - i,
        {
            let ghost before = blocks@;
            let block = self.blocks[i].clone();
            blocks.push(block);
            proof {
                assert(block_models(before).len() == i);
                assert(block_models(blocks@).len() == i + 1);
                assert forall|k: int| 0 <= k <= i implies block_models(blocks@)[k] == block_models(
                    self.blocks@,
                )[k] by {
                    if k < i {
                        assert(block_models(before)[k] == block_models(self.blocks@).subrange(
                            0,
                            i as int,
                        )[k]);
                    }
                }
            }
            i += 1;
            assert(block_models(blocks@) =~= block_models(self.blocks@).subrange(0, i as int));
        }
        assert(block_models(self.blocks@).subrange(0, i as int) =~= block_models(self.blocks@));
        Blockchain { utxos: self.utxos.clone(), blocks }
    }
}

impl Blockchain {
    /// The unspent-output set is what replaying the blocks gives.
    pub open spec fn consistent(&self) -> bool {
        self@.utxos == replay(self@.blocks)
    }

    /// The empty chain.
    pub fn new() -> (r: Blockchain)
        ensures
            r@.blocks == Seq::<BlockModel>::empty(),
            r@.utxos == UtxoMap::empty(),
            r.consistent(),
    {
        let r = Blockchain { utxos: UtxoSet::new(), blocks: Vec::new() };
        assert(r@.blocks =~= Seq::<BlockModel>::empty());
        r
    }

    /// A chain of the given blocks and unspent outputs, as they were stored.
    /// Nothing is checked: `rebuild_utxos` makes the set agree with the
    /// blocks.
    pub fn from_parts(utxos: UtxoSet, blocks: Vec<Block>) -> (r: Blockchain)
        ensures
            r@.blocks == block_models(blocks@),
            r@.utxos == utxos@,
    {
        Blockchain { utxos, blocks }
    }

    /// The number of blocks in the chain.
    pub fn block_height(&self) -> (h: u64)
        ensures
            h == self@.blocks.len(),
    {
        self.blocks.len() as u64
    }

    /// The unspent outputs.
    pub fn utxos(&self) -> (r: &UtxoSet)
        ensures
            r@ == self@.utxos,
    {
        &self.utxos
    }

    /// The blocks, oldest first.
    pub fn blocks(&self) -> (r: &Vec<Block>)
        ensures
            block_models(r@) == self@.blocks,
    {
        &self.blocks
    }

    /// Builds the unspent-output set anew: the set is emptied and every
    /// block is replayed in order.
    pub fn rebuild_utxos(&mut self)
        ensures
            final(self)@.blocks == old(self)@.blocks,
            final(self)@.utxos == replay(old(self)@.blocks),
            final(self).consistent(),
    {
        let ghost models = block_models(self.blocks@);
        let mut utxos = UtxoSet::new();
        let mut b: usize = 0;
        assert(models.subrange(0, 0) =~= Seq::<BlockModel>::empty());
        while b < self.blocks.len()
            invariant
                b <= self.blocks.len(),
                models == block_models(self.blocks@),
                utxos@ == replay(models.subrange(0, b as int)),
            decreases self.blocks.len() - b,
        {
            apply_block_to(&mut utxos, &self.blocks[b]);
            proof {
                let next = models.subrange(0, b + 1);
                assert(next.drop_last() =~= models.subrange(0, b as int));
                assert(next.last() == self.blocks@[b as int]@);
            }
            b += 1;
        }
        assert(models.subrange(0, b as int) =~= models);
        self.utxos = utxos;
    }

    /// Appends `block` if it is acceptable, with its effect on the unspent
    /// outputs, and leaves the chain as it was if it is not.
    pub fn add_block(&mut self, block: Block) -> (r: Result<(), BtcError>)
        ensures
            r == block_verdict(old(self)@.blocks, old(self)@.utxos, block@),
            r is Ok ==> final(self)@.blocks == old(self)@.blocks.push(block@),
            r is Ok ==> final(self)@.utxos == apply_block(old(self)@.utxos, block@),
            r is Err ==> final(self)@ == old(self)@,
            old(self).consistent() ==> final(self).consistent(),
    {
        let count = self.blocks.len();
        let accepted: Result<(), BtcError> = if count == 0 {
            if block.header.prev_block_hash != sha256::Hash::zero() {
                return Err(BtcError::InvalidBlock);
            }
            Ok(())
        } else {
            let last_block = &self.blocks[count - 1];
            assert(self@.blocks.last() == last_block@);
            if block.header.prev_block_hash != last_block.hash() {
                return Err(BtcError::InvalidBlock);
            }
            if !block.header.hash().matches_target(block.header.target) {
                return Err(BtcError::InvalidBlock);
            }
            if block.transactions.len() == 0 {
                return Err(BtcError::InvalidMerkleRoot);
            }
            let calculated_merkle_root = MerkleRoot::calculate(block.transactions.as_slice());
            if calculated_merkle_root != block.header.merkle_root {
                return Err(BtcError::InvalidMerkleRoot);
            }
            if !last_block.header.timestamp.is_before(&block.header.timestamp) {
                return Err(BtcError::InvalidBlock);
            }
            block.verify_transactions(count as u64, &self.utxos)
        };
        if accepted.is_err() {
            return accepted;
        }
        let ghost before = block_models(self.blocks@);
        apply_block_to(&mut self.utxos, &block);
        self.blocks.push(block);
        proof {
            let after = block_models(self.blocks@);
            assert(after =~= before.push(block@));
            assert(after.drop_last() =~= before);
        }
        accepted
    }
}

} // verus!
