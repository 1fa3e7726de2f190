//! The Merkle commitment: one digest for an ordered list of transactions.

use vstd::prelude::*;
use crate::encoding::{Encode, Field, FieldModel, fields_model};
use crate::sha256;
use crate::types::{
    push_u256, transaction_hash, transaction_models, u256_fields, Transaction, TransactionModel,
};

verus! {

/// The fields of a pair of digests: the left one, then the right one.
pub open spec fn pair_fields(left: sha256::Hash, right: sha256::Hash) -> Seq<FieldModel> {
    u256_fields(left.number()) + u256_fields(right.number())
}

/// The digest of a pair of digests.
pub open spec fn pair_hash(left: sha256::Hash, right: sha256::Hash) -> sha256::Hash {
    sha256::Hash::spec_hash(pair_fields(left, right))
}

/// The layer above `layer`: neighbours are paired from the left, and a last
/// digest without a neighbour is paired with itself.
pub open spec fn parent_layer(layer: Seq<sha256::Hash>) -> Seq<sha256::Hash> {
    Seq::new(
        ((layer.len() + 1) / 2) as nat,
        |k: int|
            pair_hash(
                layer[2 * k],
                if 2 * k + 1 < layer.len() {
                    layer[2 * k + 1]
                } else {
                    layer[2 * k]
                },
            ),
    )
}

/// The one digest that is left when layers are folded until one remains.
pub open spec fn fold_layers(layer: Seq<sha256::Hash>) -> sha256::Hash
    decreases layer.len(),
{
    if layer.len() <= 1 {
        layer[0]
    } else {
        fold_layers(parent_layer(layer))
    }
}

/// The digests of the transactions, in order.
pub open spec fn leaf_layer(transactions: Seq<TransactionModel>) -> Seq<sha256::Hash> {
    transactions.map_values(|t: TransactionModel| transaction_hash(t))
}

/// The Merkle root of a list of transactions that is not empty.
pub open spec fn merkle_root_of(transactions: Seq<TransactionModel>) -> sha256::Hash {
    fold_layers(leaf_layer(transactions))
}

impl Encode for [sha256::Hash; 2] {
    open spec fn spec_fields(&self) -> Seq<FieldModel> {
        pair_fields(self@[0], self@[1])
    }

    fn encode_fields(&self) -> (fields: Vec<Field>) {
        let mut fields: Vec<Field> = Vec::new();
        push_u256(&mut fields, self[0].to_u256());
        push_u256(&mut fields, self[1].to_u256());
        assert(fields_model(Seq::<Field>::empty()) =~= Seq::<FieldModel>::empty());
        fields
    }
}

#[derive(Clone, Copy, Debug, PartialEq, Eq, Structural)]
pub struct MerkleRoot(sha256::Hash);

impl MerkleRoot {
    /// The digest that the root is.
    pub closed spec fn digest(self) -> sha256::Hash {
        self.0
    }

    /// The root that is the digest `h`.
    pub closed spec fn from_digest(h: sha256::Hash) -> MerkleRoot {
        MerkleRoot(h)
    }

    /// The root that is the digest `h`: for a root that was stored and is
    /// read back.
    pub fn from_hash(h: sha256::Hash) -> (root: MerkleRoot)
        ensures
            root == MerkleRoot::from_digest(h),
            root.digest() == h,
    {
        MerkleRoot(h)
    }

    /// The digest that the root is.
    pub fn hash(&self) -> (h: sha256::Hash)
        ensures
            h == self.digest(),
    {
        self.0
    }

    /// Folds the digests of the transactions into one root.
    pub fn calculate(transactions: &[Transaction]) -> (root: MerkleRoot)
        requires
            transactions@.len() > 0,
        ensures
            root == MerkleRoot::from_digest(merkle_root_of(transaction_models(transactions@))),
    {
        let ghost models = transaction_models(transactions@);
        let mut layer: Vec<sha256::Hash> = Vec::new();
        let mut i: usize = 0;
        while i < transactions.len()
            invariant
                i <= transactions.len(),
                models == transaction_models(transactions@),
                layer@ == leaf_layer(models.subrange(0, i as int)),
            decreases transactions.len() - i,
        {
            layer.push(transactions[i].hash());
            i += 1;
            assert(layer@ =~= leaf_layer(models.subrange(0, i as int)));
        }
        assert(models.subrange(0, i as int) =~= models);
        while layer.len() > 1
            invariant
                layer.len() >= 1,
                fold_layers(layer@) == merkle_root_of(models),
            decreases layer.len(),
        {
            let count: usize = layer.len() / 2 + layer.len() % 2;
            let mut new_layer: Vec<sha256::Hash> = Vec::new();
            let mut k: usize = 0;
            while k < count
                invariant
                    k <= count,
                    count == (layer.len() + 1) / 2,
                    new_layer@ == parent_layer(layer@).subrange(0, k as int),
                decreases count - k,
            {
                let left = layer[2 * k];
                let right = if 2 * k + 1 < layer.len() {
                    layer[2 * k + 1]
                } else {
                    layer[2 * k]
                };
                new_layer.push(sha256::Hash::hash(&[left, right]));
                k += 1;
                assert(new_layer@ =~= parent_layer(layer@).subrange(0, k as int));
            }
            assert(new_layer@ =~= parent_layer(layer@));
            layer = new_layer;
        }
        MerkleRoot(layer[0])
    }
}

/// The root of a single transaction is that transaction's own digest.
pub proof fn lemma_single_transaction_root(t: TransactionModel)
    ensures
        merkle_root_of(seq![t]) == transaction_hash(t),
{
}

/// Roots and digests correspond one to one.
pub proof fn lemma_root_digest(a: MerkleRoot, b: MerkleRoot)
    ensures
        a.digest() == b.digest() <==> a == b,
        forall|h: sha256::Hash| #[trigger] MerkleRoot::from_digest(h).digest() == h,
{
}

} // verus!
