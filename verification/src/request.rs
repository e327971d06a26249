use vstd::prelude::*;
use ethers::types::{BlockNumber, Filter, TraceType, H256};

verus! {

/// `ethers::types::Filter`: the criteria of a log query. Carried to the
/// transport as it is; nothing here reads it.
#[verifier::external_type_specification]
#[verifier::external_body]
pub struct ExFilter(Filter);

/// `ethers::types::BlockNumber`: a block height or a tag such as "latest".
#[verifier::external_type_specification]
#[verifier::external_body]
pub struct ExBlockNumber(BlockNumber);

/// `ethers::types::TraceType`: one kind of trace that a replay can return.
#[verifier::external_type_specification]
#[verifier::external_body]
pub struct ExTraceType(TraceType);

/// `ethers::types::H256`: 32 bytes, here the hash of a transaction.
#[verifier::external_type_specification]
#[verifier::external_body]
pub struct ExH256(H256);

/// One call to the node: the operation and its parameters, as the transport
/// will receive them.
pub enum Request<'a> {
    /// The logs that match `filter`.
    GetLogs { filter: &'a Filter },
    /// Replay of every transaction of `block`, with the requested traces.
    TraceReplayBlockTransactions { block: BlockNumber, trace_types: Vec<TraceType> },
    /// Replay of one transaction, with the requested traces.
    TraceReplayTransaction { tx_hash: H256, trace_types: Vec<TraceType> },
    /// The transaction with this hash, if there is one.
    GetTransaction { tx_hash: H256 },
    /// The receipt of the transaction with this hash, if there is one.
    GetTransactionReceipt { tx_hash: H256 },
    /// The block at this height with the hashes of its transactions, if
    /// there is one.
    GetBlock { block_num: u64 },
    /// The block at this height with its transactions in full, if there is
    /// one.
    GetBlockWithTxs { block_num: u64 },
    /// The receipts of every transaction of the block at this height.
    GetBlockReceipts { block_num: u64 },
    /// The traces created at `block`.
    TraceBlock { block: BlockNumber },
    /// The traces of one transaction.
    TraceTransaction { tx_hash: H256 },
    /// The height of the chain's head.
    GetBlockNumber,
}

impl<'a> Request<'a> {
    /// Whether the call has to pass the admission gate. Every operation
    /// does but the query for the chain's head, which goes to the transport
    /// unthrottled.
    pub open spec fn gated(self) -> bool {
        !(self is GetBlockNumber)
    }

    /// Whether the call has to pass the admission gate.
    pub fn is_gated(&self) -> (b: bool)
        ensures
            b == self.gated(),
    {
        match self {
            Request::GetBlockNumber => false,
            _ => true,
        }
    }
}

} // verus!
