//! Atomic-latest Multicall3 execution with exact EVM-context bracketing.

use vstd::prelude::*;
use vstd::string::*;

use crate::domain::{bytes_equal, copy_bytes, BlockHashBinding, BlockRef};
use crate::primitives::{group_b256, group_u256, u256, word_from_bytes, word_in, Address, U256};

use super::provider::ProviderError;

verus! {

/// Context calls that precede the authoritative ones.
pub const CONTEXT_CALLS: usize = 4;

/// One zero-value subcall in an atomic authoritative read.
#[derive(Debug)]
pub struct AtomicCall {
    /// Exact target.
    pub target: Address,
    /// Complete canonical calldata.
    pub call_data: Vec<u8>,
}

/// One subcall of the Multicall3 aggregate.
#[derive(Debug)]
pub struct Call3 {
    /// Exact target.
    pub target: Address,
    /// Whether the aggregate survives a failure of this call.
    pub allow_failure: bool,
    /// Complete calldata.
    pub call_data: Vec<u8>,
}

/// What subcalls of an aggregate hold: target, failure policy and calldata.
pub open spec fn call_views(calls: Seq<Call3>) -> Seq<(nat, bool, Seq<u8>)> {
    Seq::new(
        calls.len(),
        |i: int| (calls[i].target@, calls[i].allow_failure, calls[i].call_data@),
    )
}

/// Successful atomic read at one proven header bracket.
#[derive(Debug)]
pub struct AtomicReadResult {
    /// Header shared by before/inside/after context.
    pub block: BlockRef,
    /// Timestamp observed by Solidity in the same aggregate as every authoritative value.
    pub evm_timestamp: u64,
    /// Current block hash cannot be read inside EVM in AtomicLatest mode.
    pub block_hash_binding: BlockHashBinding,
    /// Results corresponding exactly to caller-supplied calls.
    pub return_data: Vec<Vec<u8>>,
}

/// What an atomic read holds.
#[verifier::ext_equal]
pub ghost struct ReadView {
    /// Header.
    pub block: BlockRef,
    /// Timestamp observed by Solidity.
    pub evm_timestamp: u64,
    /// Strength of the block binding.
    pub block_hash_binding: BlockHashBinding,
    /// Results.
    pub return_data: Seq<Seq<u8>>,
}

/// What byte strings hold.
pub open spec fn byte_views(values: Seq<Vec<u8>>) -> Seq<Seq<u8>> {
    Seq::new(values.len(), |i: int| values[i]@)
}

impl View for AtomicReadResult {
    type V = ReadView;

    open spec fn view(&self) -> ReadView {
        ReadView {
            block: self.block,
            evm_timestamp: self.evm_timestamp,
            block_hash_binding: self.block_hash_binding,
            return_data: byte_views(self.return_data@),
        }
    }
}

/// Atomic-latest construction or context failure.
#[derive(Debug, PartialEq, Eq)]
pub enum MulticallError {
    /// Provider call failed.
    Provider(ProviderError),
    /// Retry count must be finite and nonzero.
    InvalidRetryBound,
    /// Event cursor is not processed exactly through the selected head.
    CursorNotAtHead,
    /// Header changed during the latest-state aggregate.
    ContextChanged,
    /// Aggregate return ABI is malformed or noncanonical.
    MalformedAggregate,
    /// One authoritative call failed.
    AuthoritativeCallFailed {
        /// Zero-based manifest index, excluding context calls.
        index: usize,
    },
    /// EVM context calls differ from the bracket header/configuration.
    ContextMismatch,
}

/// `getBlockNumber()`.
pub const GET_BLOCK_NUMBER: [u8; 4] = [0x42, 0xcb, 0xb1, 0x5c];

/// `getCurrentBlockTimestamp()`.
pub const GET_CURRENT_BLOCK_TIMESTAMP: [u8; 4] = [0x0f, 0x28, 0xc9, 0x7d];

/// `getChainId()`.
pub const GET_CHAIN_ID: [u8; 4] = [0x34, 0x08, 0xe4, 0x70];

/// `getLastBlockHash()`.
pub const GET_LAST_BLOCK_HASH: [u8; 4] = [0x27, 0xe8, 0x6d, 0x6e];

/// `aggregate3((address,bool,bytes)[])`.
pub const AGGREGATE3: [u8; 4] = [0x82, 0xad, 0x56, 0xcb];

/// A call of the aggregator itself that may not fail.
pub open spec fn context_call(multicall: Address, selector: [u8; 4]) -> (nat, bool, Seq<u8>) {
    (multicall@, false, selector@)
}

/// Context calls, then the authoritative calls; none may fail.
pub open spec fn bracketed_calls(multicall: Address, calls: Seq<AtomicCall>) -> Seq<
    (nat, bool, Seq<u8>),
> {
    seq![
        context_call(multicall, GET_BLOCK_NUMBER),
        context_call(multicall, GET_CURRENT_BLOCK_TIMESTAMP),
        context_call(multicall, GET_CHAIN_ID),
        context_call(multicall, GET_LAST_BLOCK_HASH),
    ] + Seq::new(calls.len(), |i: int| (calls[i].target@, false, calls[i].call_data@))
}

fn selector_bytes(selector: [u8; 4]) -> (r: Vec<u8>)
    ensures
        r@ == selector@,
{
    let bytes: Vec<u8> = vec![selector[0], selector[1], selector[2], selector[3]];
    assert(bytes@ =~= selector@);
    bytes
}

fn push_context_call(multicall: Address, selector: [u8; 4], calls: &mut Vec<Call3>)
    ensures
        call_views(final(calls)@) == call_views(old(calls)@).push(
            context_call(multicall, selector),
        ),
{
    let ghost held = call_views(calls@);
    calls.push(
        Call3 { target: multicall, allow_failure: false, call_data: selector_bytes(selector) },
    );
    assert(call_views(calls@) =~= held.push(context_call(multicall, selector)));
}

/// Brackets the authoritative calls with the context calls of the same aggregate.
pub fn context_and_authoritative_calls(multicall: Address, calls: &Vec<AtomicCall>) -> (r: Vec<
    Call3,
>)
    ensures
        call_views(r@) == bracketed_calls(multicall, calls@),
{
    let ghost goal = bracketed_calls(multicall, calls@);
    let mut aggregate: Vec<Call3> = Vec::new();
    assert(call_views(aggregate@) =~= Seq::empty());
    push_context_call(multicall, GET_BLOCK_NUMBER, &mut aggregate);
    push_context_call(multicall, GET_CURRENT_BLOCK_TIMESTAMP, &mut aggregate);
    push_context_call(multicall, GET_CHAIN_ID, &mut aggregate);
    push_context_call(multicall, GET_LAST_BLOCK_HASH, &mut aggregate);
    assert(call_views(aggregate@) =~= goal.subrange(0, 4));
    let mut i: usize = 0;
    while i < calls.len()
        invariant
            i <= calls.len(),
            goal == bracketed_calls(multicall, calls@),
            call_views(aggregate@) == goal.subrange(0, 4 + i),
        decreases calls.len() - i,
    {
        let ghost held = call_views(aggregate@);
        aggregate.push(
            Call3 {
                target: calls[i].target,
                allow_failure: false,
                call_data: copy_bytes(&calls[i].call_data),
            },
        );
        assert(call_views(aggregate@) =~= held.push(goal[4 + i]));
        i = i + 1;
        assert(call_views(aggregate@) =~= goal.subrange(0, 4 + i));
    }
    assert(call_views(aggregate@) =~= goal);
    aggregate
}

/// ABI encoding of `((address,bool,bytes)[])` as function parameters.
pub uninterp spec fn aggregate_parameters(calls: Seq<(nat, bool, Seq<u8>)>) -> Seq<u8>;

/// `alloy::sol_types::SolValue::abi_encode_params` on `(Vec<(Address, bool, Bytes)>,)`: the
/// encoding is a function of the calls alone.
#[verifier::external_body]
fn encode_parameters(calls: &Vec<Call3>) -> (r: Vec<u8>)
    ensures
        r@ == aggregate_parameters(call_views(calls@)),
{
    let mut values = Vec::with_capacity(calls.len());
    for call in calls.iter() {
        let target = alloy::primitives::Address::from_slice(&call.target.to_bytes());
        let data = alloy::primitives::Bytes::copy_from_slice(&call.call_data);
        values.push((target, call.allow_failure, data));
    }
    alloy::sol_types::SolValue::abi_encode_params(&(values,))
}

/// Calldata of the bracketed aggregate.
pub open spec fn aggregate_calldata(multicall: Address, calls: Seq<AtomicCall>) -> Seq<u8> {
    AGGREGATE3@ + aggregate_parameters(bracketed_calls(multicall, calls))
}

/// Encodes the aggregate that reads the context and every authoritative value at once.
pub fn encode_aggregate(multicall: Address, calls: &Vec<AtomicCall>) -> (r: Vec<u8>)
    ensures
        r@ == aggregate_calldata(multicall, calls@),
{
    let mut calldata = selector_bytes(AGGREGATE3);
    let mut parameters = encode_parameters(&context_and_authoritative_calls(multicall, calls));
    calldata.append(&mut parameters);
    calldata
}

/// Success flag and data of each subcall.
pub open spec fn result_views(results: Seq<(bool, Vec<u8>)>) -> Seq<(bool, Seq<u8>)> {
    Seq::new(results.len(), |i: int| (results[i].0, results[i].1@))
}

/// What ABI data decodes to as `(bool,bytes)[]`, absent for data that does not decode.
pub uninterp spec fn aggregate_results(data: Seq<u8>) -> Option<Seq<(bool, Seq<u8>)>>;

/// `alloy::sol_types::SolValue::abi_decode` for `Vec<(bool, Bytes)>`: the decoded value is a
/// function of the data alone.
#[verifier::external_body]
fn decode_results(data: &Vec<u8>) -> (r: Option<Vec<(bool, Vec<u8>)>>)
    ensures
        (match r {
            Some(results) => Some(result_views(results@)),
            None => None,
        }) == aggregate_results(data@),
{
    let decoded: Vec<(bool, alloy::primitives::Bytes)> =
        alloy::sol_types::SolValue::abi_decode(data.as_slice()).ok()?;
    Some(decoded.into_iter().map(|(success, data)| (success, data.to_vec())).collect())
}

/// ABI encoding of `(bool,bytes)[]`.
pub uninterp spec fn aggregate_encoding(results: Seq<(bool, Seq<u8>)>) -> Seq<u8>;

/// `alloy::sol_types::SolValue::abi_encode` on `Vec<(bool, Bytes)>`: the encoding is a function of
/// the value alone.
#[verifier::external_body]
fn encode_results(results: &Vec<(bool, Vec<u8>)>) -> (r: Vec<u8>)
    ensures
        r@ == aggregate_encoding(result_views(results@)),
{
    let mut values = Vec::with_capacity(results.len());
    for (success, data) in results.iter() {
        values.push((*success, alloy::primitives::Bytes::copy_from_slice(data)));
    }
    alloy::sol_types::SolValue::abi_encode(&values)
}

/// Results of an aggregate whose return data is exactly their canonical encoding.
pub open spec fn strict_results(data: Seq<u8>) -> Option<Seq<(bool, Seq<u8>)>> {
    match aggregate_results(data) {
        Some(results) => if aggregate_encoding(results) == data {
            Some(results)
        } else {
            None
        },
        None => None,
    }
}

fn decode_strictly(data: &Vec<u8>) -> (r: Option<Vec<(bool, Vec<u8>)>>)
    ensures
        (match r {
            Some(results) => Some(result_views(results@)),
            None => None,
        }) == strict_results(data@),
{
    match decode_results(data) {
        Some(results) => {
            if bytes_equal(&encode_results(&results), data) {
                Some(results)
            } else {
                None
            }
        },
        None => None,
    }
}

/// Number of results that an aggregate of authoritative calls returns.
pub open spec fn expected_results(authoritative_calls: usize) -> usize {
    if authoritative_calls > usize::MAX - CONTEXT_CALLS {
        usize::MAX
    } else {
        (CONTEXT_CALLS + authoritative_calls) as usize
    }
}

/// Index of the first failed subcall from index `from` on.
pub open spec fn first_failure_from(results: Seq<(bool, Seq<u8>)>, from: int) -> Option<int>
    decreases results.len() - from,
{
    if from >= results.len() {
        None
    } else if !results[from].0 {
        Some(from)
    } else {
        first_failure_from(results, from + 1)
    }
}

/// Why complete results cannot be read, if so: their number, or the first failed subcall. The index
/// of a failed context call is zero.
pub open spec fn results_failure(
    results: Seq<(bool, Seq<u8>)>,
    authoritative_calls: usize,
) -> Option<MulticallError> {
    if results.len() != expected_results(authoritative_calls) {
        Some(MulticallError::MalformedAggregate)
    } else {
        match first_failure_from(results, 0) {
            Some(index) => Some(
                MulticallError::AuthoritativeCallFailed {
                    index: if index < CONTEXT_CALLS {
                        0
                    } else {
                        (index - CONTEXT_CALLS) as usize
                    },
                },
            ),
            None => None,
        }
    }
}

fn check_results(results: &Vec<(bool, Vec<u8>)>, authoritative_calls: usize) -> (r: Result<
    (),
    MulticallError,
>)
    ensures
        match results_failure(result_views(results@), authoritative_calls) {
            Some(error) => r is Err && r->Err_0 == error,
            None => r is Ok && results.len() >= CONTEXT_CALLS,
        },
{
    if results.len() != CONTEXT_CALLS.saturating_add(authoritative_calls) {
        return Err(MulticallError::MalformedAggregate);
    }
    let ghost views = result_views(results@);
    let mut index: usize = 0;
    while index < results.len()
        invariant
            index <= results.len(),
            views == result_views(results@),
            results.len() == expected_results(authoritative_calls),
            first_failure_from(views, 0) == first_failure_from(views, index as int),
        decreases results.len() - index,
    {
        assert(views[index as int].0 == results@[index as int].0);
        if !results[index].0 {
            return Err(
                MulticallError::AuthoritativeCallFailed {
                    index: index.saturating_sub(CONTEXT_CALLS),
                },
            );
        }
        index = index + 1;
    }
    Ok(())
}

/// The 64-bit value of a context word.
pub open spec fn small_word(data: Seq<u8>) -> Option<u64> {
    match word_in(data) {
        Some(word) => if word@ <= u64::MAX {
            Some(word@ as u64)
        } else {
            None
        },
        None => None,
    }
}

fn decode_u256(data: &Vec<u8>) -> (r: Result<U256, MulticallError>)
    ensures
        r == word_in(data@).ok_or(MulticallError::ContextMismatch),
{
    word_from_bytes(data).ok_or(MulticallError::ContextMismatch)
}

fn decode_u64(data: &Vec<u8>) -> (r: Result<u64, MulticallError>)
    ensures
        r == small_word(data@).ok_or(MulticallError::ContextMismatch),
{
    match word_from_bytes(data) {
        Some(word) => word.to_u64().ok_or(MulticallError::ContextMismatch),
        None => Err(MulticallError::ContextMismatch),
    }
}

/// Whether the context words of an aggregate name a block of a chain within a timestamp lag.
pub open spec fn context_matches(
    results: Seq<(bool, Seq<u8>)>,
    expected_chain_id: u64,
    block: BlockRef,
    maximum_lag: u64,
) -> bool {
    let timestamp = small_word(results[1].1);
    &&& word_in(results[0].1) == Some(u256(block.number as nat))
    &&& timestamp is Some
    &&& timestamp->0 <= block.timestamp
    &&& block.timestamp - timestamp->0 <= maximum_lag
    &&& word_in(results[2].1) == Some(u256(expected_chain_id as nat))
    &&& word_in(results[3].1) == Some(u256(block.parent_hash@))
}

/// The authoritative data of results, behind the context.
pub open spec fn authoritative_data(results: Seq<(bool, Seq<u8>)>) -> Seq<Seq<u8>> {
    Seq::new(
        (results.len() - CONTEXT_CALLS) as nat,
        |i: int| results[i + CONTEXT_CALLS].1,
    )
}

/// The atomic read of decoded results at a block, or why they cannot be bound to it.
pub open spec fn read_outcome(
    results: Seq<(bool, Seq<u8>)>,
    expected_chain_id: u64,
    block: BlockRef,
    binding: BlockHashBinding,
    maximum_lag: u64,
    authoritative_calls: usize,
) -> Result<ReadView, MulticallError> {
    match results_failure(results, authoritative_calls) {
        Some(error) => Err(error),
        None => if context_matches(results, expected_chain_id, block, maximum_lag) {
            Ok(
                ReadView {
                    block,
                    evm_timestamp: small_word(results[1].1)->0,
                    block_hash_binding: binding,
                    return_data: authoritative_data(results),
                },
            )
        } else {
            Err(MulticallError::ContextMismatch)
        },
    }
}

/// Binds decoded results to a block: every subcall succeeded and the context words name the block,
/// the chain and the parent hash.
pub fn read_aggregate(
    results: &Vec<(bool, Vec<u8>)>,
    expected_chain_id: u64,
    block: BlockRef,
    block_hash_binding: BlockHashBinding,
    maximum_evm_timestamp_lag_seconds: u64,
    authoritative_calls: usize,
) -> (r: Result<AtomicReadResult, MulticallError>)
    ensures
        match read_outcome(
            result_views(results@),
            expected_chain_id,
            block,
            block_hash_binding,
            maximum_evm_timestamp_lag_seconds,
            authoritative_calls,
        ) {
            Ok(read) => r is Ok && r->Ok_0@ == read,
            Err(error) => r is Err && r->Err_0 == error,
        },
{
    broadcast use {group_u256, group_b256};

    let ghost views = result_views(results@);
    check_results(results, authoritative_calls)?;
    let number = decode_u256(&results[0].1)?;
    let evm_timestamp: u64 = decode_u64(&results[1].1)?;
    let chain_id = decode_u256(&results[2].1)?;
    let parent_hash = decode_u256(&results[3].1)?;
    if block.timestamp < evm_timestamp {
        return Err(MulticallError::ContextMismatch);
    }
    let timestamp_lag: u64 = block.timestamp - evm_timestamp;
    if number != U256::from_u64(block.number) || timestamp_lag > maximum_evm_timestamp_lag_seconds
        || chain_id != U256::from_u64(expected_chain_id) || parent_hash
        != block.parent_hash.word() {
        return Err(MulticallError::ContextMismatch);
    }
    let mut return_data: Vec<Vec<u8>> = Vec::new();
    let mut i: usize = CONTEXT_CALLS;
    while i < results.len()
        invariant
            CONTEXT_CALLS <= i <= results.len(),
            views == result_views(results@),
            byte_views(return_data@) == authoritative_data(views).subrange(
                0,
                i - CONTEXT_CALLS,
            ),
        decreases results.len() - i,
    {
        let ghost held = byte_views(return_data@);
        return_data.push(copy_bytes(&results[i].1));
        assert(byte_views(return_data@) =~= held.push(views[i as int].1));
        i = i + 1;
        assert(byte_views(return_data@) =~= authoritative_data(views).subrange(
            0,
            i - CONTEXT_CALLS,
        ));
    }
    assert(byte_views(return_data@) =~= authoritative_data(views));
    Ok(AtomicReadResult { block, evm_timestamp, block_hash_binding, return_data })
}

/// The atomic read of raw aggregate data at a block.
pub open spec fn aggregate_outcome(
    raw: Seq<u8>,
    expected_chain_id: u64,
    block: BlockRef,
    binding: BlockHashBinding,
    maximum_lag: u64,
    authoritative_calls: usize,
) -> Result<ReadView, MulticallError> {
    match strict_results(raw) {
        None => Err(MulticallError::MalformedAggregate),
        Some(results) => read_outcome(
            results,
            expected_chain_id,
            block,
            binding,
            maximum_lag,
            authoritative_calls,
        ),
    }
}

/// Decodes raw aggregate data strictly and binds it to a block.
pub fn decode_aggregate(
    raw: &Vec<u8>,
    expected_chain_id: u64,
    block: BlockRef,
    block_hash_binding: BlockHashBinding,
    maximum_evm_timestamp_lag_seconds: u64,
    authoritative_calls: usize,
) -> (r: Result<AtomicReadResult, MulticallError>)
    ensures
        match aggregate_outcome(
            raw@,
            expected_chain_id,
            block,
            block_hash_binding,
            maximum_evm_timestamp_lag_seconds,
            authoritative_calls,
        ) {
            Ok(read) => r is Ok && r->Ok_0@ == read,
            Err(error) => r is Err && r->Err_0 == error,
        },
{
    match decode_strictly(raw) {
        None => Err(MulticallError::MalformedAggregate),
        Some(results) => read_aggregate(
            &results,
            expected_chain_id,
            block,
            block_hash_binding,
            maximum_evm_timestamp_lag_seconds,
            authoritative_calls,
        ),
    }
}

/// The block number that decoded results report for a chain.
pub open spec fn reported_outcome(
    results: Seq<(bool, Seq<u8>)>,
    expected_chain_id: u64,
    authoritative_calls: usize,
) -> Result<u64, MulticallError> {
    match results_failure(results, authoritative_calls) {
        Some(error) => Err(error),
        None => if word_in(results[2].1) == Some(u256(expected_chain_id as nat)) {
            small_word(results[0].1).ok_or(MulticallError::ContextMismatch)
        } else {
            Err(MulticallError::ContextMismatch)
        },
    }
}

/// Reads the block number that decoded results report.
pub fn read_reported_block_number(
    results: &Vec<(bool, Vec<u8>)>,
    expected_chain_id: u64,
    authoritative_calls: usize,
) -> (r: Result<u64, MulticallError>)
    ensures
        r == reported_outcome(result_views(results@), expected_chain_id, authoritative_calls),
{
    broadcast use group_u256;

    check_results(results, authoritative_calls)?;
    let chain_id = decode_u256(&results[2].1)?;
    if chain_id != U256::from_u64(expected_chain_id) {
        return Err(MulticallError::ContextMismatch);
    }
    decode_u64(&results[0].1)
}

/// Decodes raw aggregate data strictly and reads the block number that it reports.
pub fn decode_reported_block_number(
    raw: &Vec<u8>,
    expected_chain_id: u64,
    authoritative_calls: usize,
) -> (r: Result<u64, MulticallError>)
    ensures
        r == (match strict_results(raw@) {
            None => Err::<u64, MulticallError>(MulticallError::MalformedAggregate),
            Some(results) => reported_outcome(results, expected_chain_id, authoritative_calls),
        }),
{
    match decode_strictly(raw) {
        None => Err(MulticallError::MalformedAggregate),
        Some(results) => {
            read_reported_block_number(&results, expected_chain_id, authoritative_calls)
        },
    }
}

/// Outcome of a latest-state aggregate between the event cursor and the header read after it.
pub open spec fn latest_outcome(
    raw: Seq<u8>,
    expected_chain_id: u64,
    event_cursor: BlockRef,
    after: BlockRef,
    authoritative_calls: usize,
) -> Result<ReadView, MulticallError> {
    if event_cursor != after {
        Err(MulticallError::CursorNotAtHead)
    } else {
        aggregate_outcome(
            raw,
            expected_chain_id,
            event_cursor,
            BlockHashBinding::Unproven,
            0,
            authoritative_calls,
        )
    }
}

/// Binds a latest-state aggregate to the event cursor, which must still be the head afterwards.
pub fn finish_latest(
    raw: &Vec<u8>,
    expected_chain_id: u64,
    event_cursor: BlockRef,
    after: BlockRef,
    authoritative_calls: usize,
) -> (r: Result<AtomicReadResult, MulticallError>)
    ensures
        match latest_outcome(raw@, expected_chain_id, event_cursor, after, authoritative_calls) {
            Ok(read) => r is Ok && r->Ok_0@ == read,
            Err(error) => r is Err && r->Err_0 == error,
        },
{
    if event_cursor != after {
        return Err(MulticallError::CursorNotAtHead);
    }
    decode_aggregate(
        raw,
        expected_chain_id,
        event_cursor,
        BlockHashBinding::Unproven,
        0,
        authoritative_calls,
    )
}

/// Whether a failed header lookup only means that the reported block is not yet bindable.
pub open spec fn not_yet_bindable(error: ProviderError) -> bool {
    match error {
        ProviderError::MissingBlock => true,
        ProviderError::Rpc { method, code, .. } => method@ == "eth_getBlockByNumber"@ && code
            == -32_603,
        _ => false,
    }
}

/// Binds the reported height to its canonical header. A header that trails the execution node makes
/// the whole aggregate repeatable; no value of this attempt is published.
pub fn bind_reported_header(header: Result<BlockRef, ProviderError>) -> (r: Result<
    BlockRef,
    MulticallError,
>)
    ensures
        r == (match header {
            Ok(block) => Ok::<BlockRef, MulticallError>(block),
            Err(error) => if not_yet_bindable(error) {
                Err(MulticallError::ContextChanged)
            } else {
                Err(MulticallError::Provider(error))
            },
        }),
{
    match header {
        Ok(block) => Ok(block),
        Err(error) => {
            let bindable_later = match &error {
                ProviderError::MissingBlock => true,
                ProviderError::Rpc { method, code, .. } => {
                    let name = (*method).to_owned();
                    let lookup = "eth_getBlockByNumber".to_owned();
                    name == lookup && *code == -32_603
                },
                _ => false,
            };
            if bindable_later {
                Err(MulticallError::ContextChanged)
            } else {
                Err(MulticallError::Provider(error))
            }
        },
    }
}

/// Whether a failure moves the context and may be repeated.
pub open spec fn context_moved(error: MulticallError) -> bool {
    error is ContextChanged || error is ContextMismatch
}

/// Bounded repetition of an atomic read.
#[derive(Clone, Copy, Debug, PartialEq, Eq, Structural)]
pub struct ReadAttempts {
    /// Attempts left.
    pub left: u32,
}

/// What follows one attempt.
#[derive(Debug)]
pub enum AttemptStep {
    /// The read is over.
    Finish(Result<AtomicReadResult, MulticallError>),
    /// The read is attempted again.
    Repeat,
}

impl ReadAttempts {
    /// Begins a bounded repetition, whose bound must be positive.
    pub fn begin(maximum_retries: u32) -> (r: Result<Self, MulticallError>)
        ensures
            r == if maximum_retries == 0 {
                Err(MulticallError::InvalidRetryBound)
            } else {
                Ok(ReadAttempts { left: maximum_retries })
            },
    {
        if maximum_retries == 0 {
            return Err(MulticallError::InvalidRetryBound);
        }
        Ok(ReadAttempts { left: maximum_retries })
    }

    /// Judges one attempt: only a moved context is repeated, while attempts are left.
    pub fn judge(&mut self, outcome: Result<AtomicReadResult, MulticallError>) -> (r: AttemptStep)
        requires
            old(self).left > 0,
        ensures
            final(self).left == old(self).left - 1,
            r == if outcome is Err && context_moved(outcome->Err_0) && old(self).left > 1 {
                AttemptStep::Repeat
            } else {
                AttemptStep::Finish(outcome)
            },
    {
        self.left = self.left - 1;
        let moved = match &outcome {
            Err(MulticallError::ContextChanged) => true,
            Err(MulticallError::ContextMismatch) => true,
            _ => false,
        };
        if moved && self.left > 0 {
            AttemptStep::Repeat
        } else {
            AttemptStep::Finish(outcome)
        }
    }
}

proof fn lemma_no_failure(results: Seq<(bool, Seq<u8>)>, from: int)
    requires
        0 <= from <= results.len(),
        first_failure_from(results, from) is None,
    ensures
        forall|i: int| from <= i < results.len() ==> (#[trigger] results[i]).0,
    decreases results.len() - from,
{
    if from < results.len() {
        lemma_no_failure(results, from + 1);
    }
}

/// An accepted atomic read holds one value per authoritative call, every subcall succeeded, and its
/// context names exactly the block, chain and parent hash that it is bound to.
pub proof fn accepted_read_is_bound_to_its_block(
    results: Seq<(bool, Seq<u8>)>,
    expected_chain_id: u64,
    block: BlockRef,
    binding: BlockHashBinding,
    maximum_lag: u64,
    authoritative_calls: usize,
)
    requires
        authoritative_calls < usize::MAX - CONTEXT_CALLS,
        read_outcome(
            results,
            expected_chain_id,
            block,
            binding,
            maximum_lag,
            authoritative_calls,
        ) is Ok,
    ensures
        ({
            let read = read_outcome(
                results,
                expected_chain_id,
                block,
                binding,
                maximum_lag,
                authoritative_calls,
            )->Ok_0;
            &&& read.return_data.len() == authoritative_calls
            &&& forall|i: int| 0 <= i < results.len() ==> (#[trigger] results[i]).0
            &&& read.block == block
            &&& read.evm_timestamp <= block.timestamp
            &&& block.timestamp - read.evm_timestamp <= maximum_lag
            &&& word_in(results[0].1) == Some(u256(block.number as nat))
            &&& word_in(results[2].1) == Some(u256(expected_chain_id as nat))
        }),
{
    lemma_no_failure(results, 0);
}

} // verus!
