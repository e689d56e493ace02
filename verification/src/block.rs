//! The block shapes a node may answer with.
//!
//! A block arrives in one of two schema variants: a legacy variant that
//! exposes no transaction-hash structure, and a current variant whose
//! transactions are listed in execution order, each classified by the lane
//! it ran in.
use vstd::prelude::*;

verus! {

/// The protocol version tag carried on every response.
#[derive(Clone, Copy, PartialEq, Eq, Structural, Debug)]
pub struct ProtocolVersion {
    pub major: u32,
    pub minor: u32,
    pub patch: u32,
}

/// A transaction identifier: the 32-byte digest, tagged with the shape of
/// transaction it names.
#[derive(Clone, PartialEq, Eq, Debug)]
pub enum TransactionHash {
    Deploy(Vec<u8>),
    Version1(Vec<u8>),
}

pub ghost enum TransactionHashV {
    Deploy(Seq<u8>),
    Version1(Seq<u8>),
}

impl View for TransactionHash {
    type V = TransactionHashV;

    open spec fn view(&self) -> TransactionHashV {
        match self {
            TransactionHash::Deploy(d) => TransactionHashV::Deploy(d@),
            TransactionHash::Version1(d) => TransactionHashV::Version1(d@),
        }
    }
}

/// The lane a transaction of a current-variant block ran in; mint lane
/// transactions are the transfers.
#[derive(Clone, Copy, PartialEq, Eq, Structural, Debug)]
pub enum TransactionLane {
    Mint,
    Auction,
    InstallUpgrade,
    Large,
    Medium,
    Small,
}

/// One transaction reference of a current-variant block.
#[derive(Clone, PartialEq, Eq, Debug)]
pub struct BlockTransaction {
    pub hash: TransactionHash,
    pub lane: TransactionLane,
}

pub ghost struct BlockTransactionV {
    pub hash: TransactionHashV,
    pub lane: TransactionLane,
}

impl View for BlockTransaction {
    type V = BlockTransactionV;

    open spec fn view(&self) -> BlockTransactionV {
        BlockTransactionV { hash: self.hash@, lane: self.lane }
    }
}

/// A legacy-variant block: it lists deploys, but exposes no
/// transaction-hash structure to this pipeline.
#[derive(Clone, PartialEq, Eq, Debug)]
pub struct BlockV1 {
    pub deploy_hashes: Vec<TransactionHash>,
    pub transfer_hashes: Vec<TransactionHash>,
}

/// A current-variant block: all transaction references in execution order.
#[derive(Clone, PartialEq, Eq, Debug)]
pub struct BlockV2 {
    pub transactions: Vec<BlockTransaction>,
}

/// A block, tagged by schema variant.
#[derive(Clone, PartialEq, Eq, Debug)]
pub enum Block {
    V1(BlockV1),
    V2(BlockV2),
}

/// A block together with its finality signatures; the signatures are a
/// collaborator's business and carry no weight here.
#[derive(Clone, PartialEq, Eq, Debug)]
pub struct BlockWithSignatures {
    pub block: Block,
}

/// A raw get-block response: the version tag, and the block if one was
/// found.
#[derive(Clone, PartialEq, Eq, Debug)]
pub struct GetBlockResult {
    pub api_version: ProtocolVersion,
    pub block_with_signatures: Option<BlockWithSignatures>,
}

} // verus!
