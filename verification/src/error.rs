//! The flat error taxonomy shared by every validation step.

use vstd::prelude::*;

verus! {

/// Why a candidate value was rejected.
#[derive(Debug, Clone, Copy, PartialEq, Eq, Structural)]
pub enum BtcError {
    InvalidTransaction,
    InvalidBlock,
    InvalidBlockHeader,
    InvalidTransactionInput,
    InvalidTransactionOutput,
    InvalidMerkleRoot,
    InvalidHash,
    InvalidSignature,
    InvalidPublicKey,
    InvalidPrivateKey,
}

impl BtcError {
    /// The text that describes the error.
    pub open spec fn spec_message(self) -> Seq<char> {
        match self {
            BtcError::InvalidTransaction => "Invalid Transaction"@,
            BtcError::InvalidBlock => "Invalid Block"@,
            BtcError::InvalidBlockHeader => "Invalid Block header"@,
            BtcError::InvalidTransactionInput => "Invalid transaction input"@,
            BtcError::InvalidTransactionOutput => "Invalid transaction output"@,
            BtcError::InvalidMerkleRoot => "Invalid Merkle root"@,
            BtcError::InvalidHash => "Invalid hash"@,
            BtcError::InvalidSignature => "Invalid signature"@,
            BtcError::InvalidPublicKey => "Invalid public key"@,
            BtcError::InvalidPrivateKey => "Invalid private key"@,
        }
    }

    /// The text that describes the error.
    pub fn message(&self) -> (text: &'static str)
        ensures
            text@ == self.spec_message(),
    {
        match self {
            BtcError::InvalidTransaction => "Invalid Transaction",
            BtcError::InvalidBlock => "Invalid Block",
            BtcError::InvalidBlockHeader => "Invalid Block header",
            BtcError::InvalidTransactionInput => "Invalid transaction input",
            BtcError::InvalidTransactionOutput => "Invalid transaction output",
            BtcError::InvalidMerkleRoot => "Invalid Merkle root",
            BtcError::InvalidHash => "Invalid hash",
            BtcError::InvalidSignature => "Invalid signature",
            BtcError::InvalidPublicKey => "Invalid public key",
            BtcError::InvalidPrivateKey => "Invalid private key",
        }
    }
}

} // verus!
