//! The ledger's entities: plain data, each with the model that the rules are
//! stated over, its canonical encoding and its digest.

use vstd::prelude::*;
use crate::crypto::{PublicKey, Signature};
use crate::encoding::{push_all, push_field, Encode, Field, FieldModel, fields_model};
use crate::sha256;
use crate::u256::U256;
use crate::util::MerkleRoot;

verus! {

/// A point in time: whole seconds since the Unix epoch and the nanoseconds
/// past that second.
#[derive(Clone, Copy, Debug, PartialEq, Eq, Structural)]
pub struct Timestamp {
    pub secs: i64,
    pub nanos: u32,
}

impl Timestamp {
    /// Strictly earlier than `other`.
    pub open spec fn precedes(self, other: Timestamp) -> bool {
        self.secs < other.secs || (self.secs == other.secs && self.nanos < other.nanos)
    }

    pub fn new(secs: i64, nanos: u32) -> (r: Timestamp)
        ensures
            r.secs == secs,
            r.nanos == nanos,
    {
        Timestamp { secs, nanos }
    }

    pub fn is_before(&self, other: &Timestamp) -> (r: bool)
        ensures
            r == self.precedes(*other),
    {
        self.secs < other.secs || (self.secs == other.secs && self.nanos < other.nanos)
    }
}

/// An amount owned by a public key. `unique_id` tells apart two outputs that
/// would otherwise be equal.
#[derive(Debug)]
pub struct TransactionOutput {
    pub value: u64,
    pub unique_id: u128,
    pub pub_key: PublicKey,
}

pub struct OutputModel {
    pub value: u64,
    pub unique_id: u128,
    pub pub_key: Seq<u8>,
}

/// A claim on one earlier output, with the owner's signature over the
/// digest that names it.
#[derive(Debug)]
pub struct TransactionInput {
    pub prev_transaction_output_hash: sha256::Hash,
    pub signature: Signature,
}

pub struct InputModel {
    pub prev_transaction_output_hash: sha256::Hash,
    pub signature: Seq<u8>,
}

#[derive(Debug)]
pub struct Transaction {
    pub inputs: Vec<TransactionInput>,
    pub outputs: Vec<TransactionOutput>,
}

pub struct TransactionModel {
    pub inputs: Seq<InputModel>,
    pub outputs: Seq<OutputModel>,
}

#[derive(Clone, Copy, Debug)]
pub struct BlockHeader {
    /// When the block was made.
    pub timestamp: Timestamp,
    /// The number that is varied until the header's digest meets the target.
    pub nonce: u64,
    /// The digest of the block before this one.
    pub prev_block_hash: sha256::Hash,
    /// The commitment to the block's transactions.
    pub merkle_root: MerkleRoot,
    /// The header's digest must not exceed this number.
    pub target: U256,
}

/// A header and its transactions, the coinbase transaction first.
#[derive(Debug)]
pub struct Block {
    pub header: BlockHeader,
    pub transactions: Vec<Transaction>,
}

pub struct BlockModel {
    pub header: BlockHeader,
    pub transactions: Seq<TransactionModel>,
}

impl View for TransactionOutput {
    type V = OutputModel;

    open spec fn view(&self) -> OutputModel {
        OutputModel { value: self.value, unique_id: self.unique_id, pub_key: self.pub_key@ }
    }
}

impl View for TransactionInput {
    type V = InputModel;

    open spec fn view(&self) -> InputModel {
        InputModel {
            prev_transaction_output_hash: self.prev_transaction_output_hash,
            signature: self.signature@,
        }
    }
}

/// The models of a sequence of inputs, one by one.
pub open spec fn input_models(inputs: Seq<TransactionInput>) -> Seq<InputModel> {
    inputs.map_values(|i: TransactionInput| i@)
}

/// The models of a sequence of outputs, one by one.
pub open spec fn output_models(outputs: Seq<TransactionOutput>) -> Seq<OutputModel> {
    outputs.map_values(|o: TransactionOutput| o@)
}

impl View for Transaction {
    type V = TransactionModel;

    open spec fn view(&self) -> TransactionModel {
        TransactionModel {
            inputs: input_models(self.inputs@),
            outputs: output_models(self.outputs@),
        }
    }
}

/// The models of a sequence of transactions, one by one.
pub open spec fn transaction_models(transactions: Seq<Transaction>) -> Seq<TransactionModel> {
    transactions.map_values(|t: Transaction| t@)
}

impl View for Block {
    type V = BlockModel;

    open spec fn view(&self) -> BlockModel {
        BlockModel { header: self.header, transactions: transaction_models(self.transactions@) }
    }
}

/// The models of a sequence of blocks, one by one.
pub open spec fn block_models(blocks: Seq<Block>) -> Seq<BlockModel> {
    blocks.map_values(|b: Block| b@)
}

impl Clone for TransactionOutput {
    fn clone(&self) -> (r: Self)
        ensures
            r@ == self@,
    {
        TransactionOutput {
            value: self.value,
            unique_id: self.unique_id,
            pub_key: self.pub_key.clone(),
        }
    }
}

impl Clone for TransactionInput {
    fn clone(&self) -> (r: Self)
        ensures
            r@ == self@,
    {
        TransactionInput {
            prev_transaction_output_hash: self.prev_transaction_output_hash,
            signature: self.signature.clone(),
        }
    }
}

impl Clone for Transaction {
    fn clone(&self) -> (r: Self)
        ensures
            r@ == self@,
    {
        let mut inputs: Vec<TransactionInput> = Vec::new();
        let mut i: usize = 0;
        while i < self.inputs.len()
            invariant
                i <= self.inputs.len(),
                input_models(inputs@) == self@.inputs.subrange(0, i as int),
            decreases self.inputs.len() - i,
        {
            let ghost before = inputs@;
            let item = self.inputs[i].clone();
            inputs.push(item);
            proof {
                assert(input_models(before).len() == i);
                assert(input_models(inputs@).len() == i + 1);
                assert forall|k: int| 0 <= k <= i implies input_models(inputs@)[k] == self@.inputs[k] by {
                    if k < i {
                        assert(input_models(before)[k] == self@.inputs.subrange(0, i as int)[k]);
                    }
                }
            }
            i += 1;
            assert(input_models(inputs@) =~= self@.inputs.subrange(0, i as int));
        }
        let mut outputs: Vec<TransactionOutput> = Vec::new();
        let mut j: usize = 0;
        while j < self.outputs.len()
            invariant
                j <= self.outputs.len(),
                output_models(outputs@) == self@.outputs.subrange(0, j as int),
            decreases self.outputs.len() - j,
        {
            let ghost before = outputs@;
            let item = self.outputs[j].clone();
            outputs.push(item);
            proof {
                assert(output_models(before).len() == j);
                assert(output_models(outputs@).len() == j + 1);
                assert forall|k: int| 0 <= k <= j implies output_models(outputs@)[k] == self@.outputs[k] by {
                    if k < j {
                        assert(output_models(before)[k] == self@.outputs.subrange(0, j as int)[k]);
                    }
                }
            }
            j += 1;
            assert(output_models(outputs@) =~= self@.outputs.subrange(0, j as int));
        }
        assert(self@.inputs.subrange(0, i as int) =~= self@.inputs);
        assert(self@.outputs.subrange(0, j as int) =~= self@.outputs);
        Transaction { inputs, outputs }
    }
}

impl Clone for Block {
    fn clone(&self) -> (r: Self)
        ensures
            r@ == self@,
    {
        let mut transactions: Vec<Transaction> = Vec::new();
        let mut i: usize = 0;
        while i < self.transactions.len()
            invariant
                i <= self.transactions.len(),
                transaction_models(transactions@) == self@.transactions.subrange(0, i as int),
            decreases self.transactions.len() - i,
        {
            let ghost before = transactions@;
            let item = self.transactions[i].clone();
            transactions.push(item);
            proof {
                assert(transaction_models(before).len() == i);
                assert(transaction_models(transactions@).len() == i + 1);
                assert forall|k: int| 0 <= k <= i implies transaction_models(transactions@)[k] == self@.transactions[k] by {
                    if k < i {
                        assert(transaction_models(before)[k] == self@.transactions.subrange(0, i as int)[k]);
                    }
                }
            }
            i += 1;
            assert(transaction_models(transactions@) =~= self@.transactions.subrange(
                0,
                i as int,
            ));
        }
        assert(self@.transactions.subrange(0, i as int) =~= self@.transactions);
        Block { header: self.header, transactions }
    }
}

// ----- canonical encoding -----

/// A 256-bit number as four words, least significant first.
pub open spec fn u256_fields(n: U256) -> Seq<FieldModel> {
    seq![
        FieldModel::Unsigned(n.word(0)),
        FieldModel::Unsigned(n.word(1)),
        FieldModel::Unsigned(n.word(2)),
        FieldModel::Unsigned(n.word(3)),
    ]
}

/// Value, the two halves of the identifier, owner.
pub open spec fn output_fields(o: OutputModel) -> Seq<FieldModel> {
    seq![
        FieldModel::Unsigned(o.value),
        FieldModel::Unsigned((o.unique_id / 0x1_0000_0000_0000_0000) as u64),
        FieldModel::Unsigned((o.unique_id % 0x1_0000_0000_0000_0000) as u64),
        FieldModel::Bytes(o.pub_key),
    ]
}

/// The digest referred to, then the signature.
pub open spec fn input_fields(i: InputModel) -> Seq<FieldModel> {
    u256_fields(i.prev_transaction_output_hash.number()).push(FieldModel::Bytes(i.signature))
}

/// The fields of the inputs, one input after the other.
pub open spec fn inputs_fields(inputs: Seq<InputModel>) -> Seq<FieldModel>
    decreases inputs.len(),
{
    if inputs.len() == 0 {
        Seq::empty()
    } else {
        inputs_fields(inputs.drop_last()) + input_fields(inputs.last())
    }
}

/// The fields of the outputs, one output after the other.
pub open spec fn outputs_fields(outputs: Seq<OutputModel>) -> Seq<FieldModel>
    decreases outputs.len(),
{
    if outputs.len() == 0 {
        Seq::empty()
    } else {
        outputs_fields(outputs.drop_last()) + output_fields(outputs.last())
    }
}

/// The number of inputs and the inputs, then the number of outputs and the
/// outputs.
pub open spec fn transaction_fields(t: TransactionModel) -> Seq<FieldModel> {
    seq![FieldModel::Unsigned(t.inputs.len() as u64)] + inputs_fields(t.inputs)
        + seq![FieldModel::Unsigned(t.outputs.len() as u64)] + outputs_fields(t.outputs)
}

/// The fields of the transactions, one transaction after the other.
pub open spec fn transactions_fields(transactions: Seq<TransactionModel>) -> Seq<FieldModel>
    decreases transactions.len(),
{
    if transactions.len() == 0 {
        Seq::empty()
    } else {
        transactions_fields(transactions.drop_last()) + transaction_fields(transactions.last())
    }
}

/// Timestamp, nonce, previous digest, Merkle root, target.
pub open spec fn header_fields(h: BlockHeader) -> Seq<FieldModel> {
    seq![
        FieldModel::Signed(h.timestamp.secs),
        FieldModel::Unsigned(h.timestamp.nanos as u64),
        FieldModel::Unsigned(h.nonce),
    ] + u256_fields(h.prev_block_hash.number()) + u256_fields(h.merkle_root.digest().number())
        + u256_fields(h.target)
}

/// The header, the number of transactions, the transactions.
pub open spec fn block_fields(b: BlockModel) -> Seq<FieldModel> {
    header_fields(b.header) + seq![FieldModel::Unsigned(b.transactions.len() as u64)]
        + transactions_fields(b.transactions)
}

/// The digest of an output.
pub open spec fn output_hash(o: OutputModel) -> sha256::Hash {
    sha256::Hash::spec_hash(output_fields(o))
}

/// The digest of a transaction.
pub open spec fn transaction_hash(t: TransactionModel) -> sha256::Hash {
    sha256::Hash::spec_hash(transaction_fields(t))
}

/// The digest of a header.
pub open spec fn header_hash(h: BlockHeader) -> sha256::Hash {
    sha256::Hash::spec_hash(header_fields(h))
}

/// The digest of a block.
pub open spec fn block_hash(b: BlockModel) -> sha256::Hash {
    sha256::Hash::spec_hash(block_fields(b))
}

/// Appends the four words of `n`.
pub(crate) fn push_u256(fields: &mut Vec<Field>, n: U256)
    ensures
        fields_model(final(fields)@) == fields_model(old(fields)@) + u256_fields(n),
{
    let words = n.words();
    fields.push(Field::Unsigned(words.3));
    fields.push(Field::Unsigned(words.2));
    fields.push(Field::Unsigned(words.1));
    fields.push(Field::Unsigned(words.0));
    assert(fields_model(fields@) =~= fields_model(old(fields)@) + u256_fields(n));
}

impl Encode for TransactionOutput {
    open spec fn spec_fields(&self) -> Seq<FieldModel> {
        output_fields(self@)
    }

    fn encode_fields(&self) -> (fields: Vec<Field>) {
        let mut fields: Vec<Field> = Vec::new();
        push_field(&mut fields, Field::Unsigned(self.value));
        push_field(&mut fields, Field::Unsigned((self.unique_id / 0x1_0000_0000_0000_0000) as u64));
        push_field(&mut fields, Field::Unsigned((self.unique_id % 0x1_0000_0000_0000_0000) as u64));
        push_field(&mut fields, Field::Bytes(self.pub_key.to_sec1_bytes()));
        assert(fields_model(fields@) =~= output_fields(self@));
        fields
    }
}

impl Encode for TransactionInput {
    open spec fn spec_fields(&self) -> Seq<FieldModel> {
        input_fields(self@)
    }

    fn encode_fields(&self) -> (fields: Vec<Field>) {
        let mut fields: Vec<Field> = Vec::new();
        push_u256(&mut fields, self.prev_transaction_output_hash.to_u256());
        push_field(&mut fields, Field::Bytes(self.signature.to_bytes()));
        assert(fields_model(fields@) =~= input_fields(self@));
        fields
    }
}

impl Encode for Transaction {
    open spec fn spec_fields(&self) -> Seq<FieldModel> {
        transaction_fields(self@)
    }

    fn encode_fields(&self) -> (fields: Vec<Field>) {
        let mut fields: Vec<Field> = Vec::new();
        push_field(&mut fields, Field::Unsigned(self.inputs.len() as u64));
        let mut i: usize = 0;
        while i < self.inputs.len()
            invariant
                i <= self.inputs.len(),
                fields_model(fields@) == seq![FieldModel::Unsigned(self.inputs.len() as u64)]
                    + inputs_fields(self@.inputs.subrange(0, i as int)),
            decreases self.inputs.len() - i,
        {
            push_all(&mut fields, self.inputs[i].encode_fields());
            proof {
                let next = self@.inputs.subrange(0, i + 1);
                assert(next.drop_last() =~= self@.inputs.subrange(0, i as int));
                assert(next.last() == self.inputs[i as int]@);
            }
            i += 1;
        }
        assert(self@.inputs.subrange(0, i as int) =~= self@.inputs);
        let ghost head = fields_model(fields@);
        push_field(&mut fields, Field::Unsigned(self.outputs.len() as u64));
        let mut j: usize = 0;
        while j < self.outputs.len()
            invariant
                j <= self.outputs.len(),
                head == seq![FieldModel::Unsigned(self.inputs.len() as u64)] + inputs_fields(
                    self@.inputs,
                ),
                fields_model(fields@) == head + seq![
                    FieldModel::Unsigned(self.outputs.len() as u64),
                ] + outputs_fields(self@.outputs.subrange(0, j as int)),
            decreases self.outputs.len() - j,
        {
            push_all(&mut fields, self.outputs[j].encode_fields());
            proof {
                let next = self@.outputs.subrange(0, j + 1);
                assert(next.drop_last() =~= self@.outputs.subrange(0, j as int));
                assert(next.last() == self.outputs[j as int]@);
            }
            j += 1;
        }
        assert(self@.outputs.subrange(0, j as int) =~= self@.outputs);
        fields
    }
}

impl Encode for BlockHeader {
    open spec fn spec_fields(&self) -> Seq<FieldModel> {
        header_fields(*self)
    }

    fn encode_fields(&self) -> (fields: Vec<Field>) {
        let mut fields: Vec<Field> = Vec::new();
        push_field(&mut fields, Field::Signed(self.timestamp.secs));
        push_field(&mut fields, Field::Unsigned(self.timestamp.nanos as u64));
        push_field(&mut fields, Field::Unsigned(self.nonce));
        assert(fields_model(fields@) =~= seq![
            FieldModel::Signed(self.timestamp.secs),
            FieldModel::Unsigned(self.timestamp.nanos as u64),
            FieldModel::Unsigned(self.nonce),
        ]);
        push_u256(&mut fields, self.prev_block_hash.to_u256());
        push_u256(&mut fields, self.merkle_root.hash().to_u256());
        push_u256(&mut fields, self.target);
        fields
    }
}

impl Encode for Block {
    open spec fn spec_fields(&self) -> Seq<FieldModel> {
        block_fields(self@)
    }

    fn encode_fields(&self) -> (fields: Vec<Field>) {
        let mut fields: Vec<Field> = self.header.encode_fields();
        push_field(&mut fields, Field::Unsigned(self.transactions.len() as u64));
        let mut i: usize = 0;
        while i < self.transactions.len()
            invariant
                i <= self.transactions.len(),
                fields_model(fields@) == header_fields(self.header) + seq![
                    FieldModel::Unsigned(self.transactions.len() as u64),
                ] + transactions_fields(self@.transactions.subrange(0, i as int)),
            decreases self.transactions.len() - i,
        {
            push_all(&mut fields, self.transactions[i].encode_fields());
            proof {
                let next = self@.transactions.subrange(0, i + 1);
                assert(next.drop_last() =~= self@.transactions.subrange(0, i as int));
                assert(next.last() == self.transactions[i as int]@);
            }
            i += 1;
        }
        assert(self@.transactions.subrange(0, i as int) =~= self@.transactions);
        fields
    }
}

// ----- constructors and digests -----

impl TransactionOutput {
    pub fn hash(&self) -> (h: sha256::Hash)
        ensures
            h == output_hash(self@),
    {
        sha256::Hash::hash(self)
    }
}

impl Transaction {
    pub fn new(inputs: Vec<TransactionInput>, outputs: Vec<TransactionOutput>) -> (t: Transaction)
        ensures
            t.inputs == inputs,
            t.outputs == outputs,
    {
        Transaction { inputs, outputs }
    }

    pub fn hash(&self) -> (h: sha256::Hash)
        ensures
            h == transaction_hash(self@),
    {
        sha256::Hash::hash(self)
    }
}

impl BlockHeader {
    pub fn new(
        timestamp: Timestamp,
        nonce: u64,
        prev_block_hash: sha256::Hash,
        merkle_root: MerkleRoot,
        target: U256,
    ) -> (h: BlockHeader)
        ensures
            h.timestamp == timestamp,
            h.nonce == nonce,
            h.prev_block_hash == prev_block_hash,
            h.merkle_root == merkle_root,
            h.target == target,
    {
        BlockHeader { timestamp, nonce, prev_block_hash, merkle_root, target }
    }

    pub fn hash(&self) -> (h: sha256::Hash)
        ensures
            h == header_hash(*self),
    {
        sha256::Hash::hash(self)
    }
}

impl Block {
    pub fn new(header: BlockHeader, transactions: Vec<Transaction>) -> (b: Block)
        ensures
            b.header == header,
            b.transactions == transactions,
    {
        Block { header, transactions }
    }

    pub fn hash(&self) -> (h: sha256::Hash)
        ensures
            h == block_hash(self@),
    {
        sha256::Hash::hash(self)
    }
}

} // verus!
