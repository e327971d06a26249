use vstd::prelude::*;
use std::sync::Arc;
use ethers::providers::{Http, Provider};
use ethers::types::{BlockNumber, Filter, TraceType, H256};
use crate::call::Call;
use crate::gate::Gate;
use crate::rate::RateLimit;
use crate::request::Request;
use crate::retry::RetryPolicy;

verus! {

/// `ethers::providers::Provider`: the client that speaks JSON-RPC over a
/// transport `P`. The library owns it and hands it to whoever makes the
/// network calls; it never looks inside.
#[verifier::external_type_specification]
#[verifier::external_body]
#[verifier::reject_recursive_types(P)]
pub struct ExProvider<P>(Provider<P>);

/// `ethers::providers::Http`: the HTTP transport.
#[verifier::external_type_specification]
#[verifier::external_body]
pub struct ExHttp(Http);

/// A provider together with the policies under which calls to it are made:
/// bounded concurrency, a bounded rate, and bounded retry. Each policy may
/// be absent. Nothing changes after construction.
#[verifier::reject_recursive_types(P)]
pub struct Fetcher<P> {
    /// The provider that the calls go to.
    pub provider: Provider<P>,
    /// The most calls under way at once; `None` for no limit.
    pub concurrency_limit: Option<usize>,
    /// The quota of calls over time; `None` for no limit.
    pub rate_limit: Option<RateLimit>,
    /// How failed attempts are repeated; `None` for a single attempt.
    pub retry_strategy: Option<RetryPolicy>,
}

/// What the scheduler of a collection needs to know of a data source.
#[derive(Clone)]
pub struct Source {
    /// The fetcher, shared by every holder of this source.
    pub fetcher: Arc<Fetcher<Http>>,
    /// The chain's identifier.
    pub chain_id: u64,
    /// How many blocks one log query covers.
    pub inner_request_size: u64,
    /// How many chunks the scheduler collects at once.
    pub max_concurrent_chunks: u64,
}

impl<P> Fetcher<P> {
    /// The admission gate that this fetcher's limits make.
    pub open spec fn gate(self) -> Gate {
        Gate { concurrency_limit: self.concurrency_limit, rate_limit: self.rate_limit }
    }

    /// The call that this fetcher starts for `request`.
    pub open spec fn call_for<'a>(self, request: Request<'a>) -> Call<'a> {
        Call::started(request, self.gate(), self.retry_strategy)
    }

    /// A fetcher for `provider` under the given policies.
    pub fn new(
        provider: Provider<P>,
        concurrency_limit: Option<usize>,
        rate_limit: Option<RateLimit>,
        retry_strategy: Option<RetryPolicy>,
    ) -> (f: Fetcher<P>)
        ensures
            f.provider == provider,
            f.concurrency_limit == concurrency_limit,
            f.rate_limit == rate_limit,
            f.retry_strategy == retry_strategy,
    {
        Fetcher { provider, concurrency_limit, rate_limit, retry_strategy }
    }

    /// The admission gate that this fetcher's limits make.
    pub fn admission_gate(&self) -> (g: Gate)
        ensures
            g == self.gate(),
    {
        Gate::new(self.concurrency_limit, self.rate_limit)
    }

    /// Starts a call for `request` under this fetcher's policies.
    pub fn begin<'a>(&self, request: Request<'a>) -> (call: Call<'a>)
        ensures
            call == self.call_for(request),
            call.wf(),
    {
        let gate = self.admission_gate();
        Call::start(request, &gate, self.retry_strategy)
    }

    /// Starts a query for the logs that match `filter`.
    pub fn get_logs<'a>(&self, filter: &'a Filter) -> (call: Call<'a>)
        ensures
            call == self.call_for(Request::GetLogs { filter }),
            call.wf(),
    {
        self.begin(Request::GetLogs { filter })
    }

    /// Starts a replay of all transactions of `block`, asking for the
    /// given traces of each.
    pub fn trace_replay_block_transactions(
        &self,
        block: BlockNumber,
        trace_types: Vec<TraceType>,
    ) -> (call: Call<'static>)
        ensures
            call == self.call_for(Request::TraceReplayBlockTransactions { block, trace_types }),
            call.wf(),
    {
        self.begin(Request::TraceReplayBlockTransactions { block, trace_types })
    }

    /// Starts a replay of one transaction, asking for the given traces.
    pub fn trace_replay_transaction(&self, tx_hash: H256, trace_types: Vec<TraceType>) -> (call:
        Call<'static>)
        ensures
            call == self.call_for(Request::TraceReplayTransaction { tx_hash, trace_types }),
            call.wf(),
    {
        self.begin(Request::TraceReplayTransaction { tx_hash, trace_types })
    }

    /// Starts a query for the transaction with hash `tx_hash`.
    pub fn get_transaction(&self, tx_hash: H256) -> (call: Call<'static>)
        ensures
            call == self.call_for(Request::GetTransaction { tx_hash }),
            call.wf(),
    {
        self.begin(Request::GetTransaction { tx_hash })
    }

    /// Starts a query for the receipt of the transaction with hash
    /// `tx_hash`.
    pub fn get_transaction_receipt(&self, tx_hash: H256) -> (call: Call<'static>)
        ensures
            call == self.call_for(Request::GetTransactionReceipt { tx_hash }),
            call.wf(),
    {
        self.begin(Request::GetTransactionReceipt { tx_hash })
    }

    /// Starts a query for the block at `block_num`, with the hashes of its
    /// transactions.
    pub fn get_block(&self, block_num: u64) -> (call: Call<'static>)
        ensures
            call == self.call_for(Request::GetBlock { block_num }),
            call.wf(),
    {
        self.begin(Request::GetBlock { block_num })
    }

    /// Starts a query for the block at `block_num`, with its transactions
    /// in full.
    pub fn get_block_with_txs(&self, block_num: u64) -> (call: Call<'static>)
        ensures
            call == self.call_for(Request::GetBlockWithTxs { block_num }),
            call.wf(),
    {
        self.begin(Request::GetBlockWithTxs { block_num })
    }

    /// Starts a query for all receipts of the block at `block_num`.
    pub fn get_block_receipts(&self, block_num: u64) -> (call: Call<'static>)
        ensures
            call == self.call_for(Request::GetBlockReceipts { block_num }),
            call.wf(),
    {
        self.begin(Request::GetBlockReceipts { block_num })
    }

    /// Starts a query for the traces created at block `block_num`.
    pub fn trace_block(&self, block_num: BlockNumber) -> (call: Call<'static>)
        ensures
            call == self.call_for(Request::TraceBlock { block: block_num }),
            call.wf(),
    {
        self.begin(Request::TraceBlock { block: block_num })
    }

    /// Starts a query for all traces of one transaction.
    pub fn trace_transaction(&self, tx_hash: H256) -> (call: Call<'static>)
        ensures
            call == self.call_for(Request::TraceTransaction { tx_hash }),
            call.wf(),
    {
        self.begin(Request::TraceTransaction { tx_hash })
    }

    /// Starts a query for the height of the chain's head. This one
    /// operation does not pass the admission gate: its first attempt is
    /// due at once, whatever the fetcher's limits.
    pub fn get_block_number(&self) -> (call: Call<'static>)
        ensures
            call == self.call_for(Request::GetBlockNumber),
            call.phase == crate::call::Phase::InFlight,
            call.wf(),
    {
        self.begin(Request::GetBlockNumber)
    }
}

impl Source {
    /// A source over a shared fetcher.
    pub fn new(
        fetcher: Arc<Fetcher<Http>>,
        chain_id: u64,
        inner_request_size: u64,
        max_concurrent_chunks: u64,
    ) -> (s: Source)
        ensures
            s.fetcher == fetcher,
            s.chain_id == chain_id,
            s.inner_request_size == inner_request_size,
            s.max_concurrent_chunks == max_concurrent_chunks,
    {
        Source { fetcher, chain_id, inner_request_size, max_concurrent_chunks }
    }

    /// Another handle on the same source: the fetcher is shared, not
    /// copied.
    pub fn duplicate(&self) -> (s: Source)
        ensures
            s.fetcher == self.fetcher,
            s.chain_id == self.chain_id,
            s.inner_request_size == self.inner_request_size,
            s.max_concurrent_chunks == self.max_concurrent_chunks,
    {
        Source {
            fetcher: self.fetcher.clone(),
            chain_id: self.chain_id,
            inner_request_size: self.inner_request_size,
            max_concurrent_chunks: self.max_concurrent_chunks,
        }
    }
}

} // verus!
