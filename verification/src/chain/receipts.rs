//! Strict receipt and log attribution for canonical block bundles.

use vstd::prelude::*;
use vstd::string::*;

use crate::collections::{has_key, OrderedSet};
use crate::domain::{copy_bytes, BlockRef};
use crate::primitives::{Address, B256};

use super::provider::{parse_quantity, quantity_value, ProviderError, RpcLog, RpcReceipt};
use super::ChainError;

verus! {

/// Log attributed to one canonical block and transaction.
#[derive(Debug)]
pub struct CanonicalLogRecord {
    /// EVM chain ID.
    pub chain_id: u64,
    /// Block number.
    pub block_number: u64,
    /// Block hash.
    pub block_hash: B256,
    /// Transaction hash.
    pub transaction_hash: B256,
    /// Transaction index in the block.
    pub transaction_index: u64,
    /// Log index in the block.
    pub log_index: u64,
    /// Emitting address.
    pub address: Address,
    /// Ordered topics, absent ones last.
    pub topics: [Option<B256>; 4],
    /// Event data.
    pub data: Vec<u8>,
}

/// What a canonical log holds.
#[verifier::ext_equal]
pub ghost struct LogView {
    /// EVM chain ID.
    pub chain_id: u64,
    /// Block number.
    pub block_number: u64,
    /// Block hash.
    pub block_hash: B256,
    /// Transaction hash.
    pub transaction_hash: B256,
    /// Transaction index.
    pub transaction_index: u64,
    /// Log index.
    pub log_index: u64,
    /// Emitting address.
    pub address: Address,
    /// Topics.
    pub topics: Seq<Option<B256>>,
    /// Data.
    pub data: Seq<u8>,
}

impl View for CanonicalLogRecord {
    type V = LogView;

    open spec fn view(&self) -> LogView {
        LogView {
            chain_id: self.chain_id,
            block_number: self.block_number,
            block_hash: self.block_hash,
            transaction_hash: self.transaction_hash,
            transaction_index: self.transaction_index,
            log_index: self.log_index,
            address: self.address,
            topics: self.topics@,
            data: self.data@,
        }
    }
}

/// What canonical logs hold.
pub open spec fn log_views(logs: Seq<CanonicalLogRecord>) -> Seq<LogView> {
    Seq::new(logs.len(), |i: int| logs[i]@)
}

/// Copies a canonical log.
pub fn copy_log(log: &CanonicalLogRecord) -> (r: CanonicalLogRecord)
    ensures
        r@ == log@,
{
    CanonicalLogRecord {
        chain_id: log.chain_id,
        block_number: log.block_number,
        block_hash: log.block_hash,
        transaction_hash: log.transaction_hash,
        transaction_index: log.transaction_index,
        log_index: log.log_index,
        address: log.address,
        topics: log.topics,
        data: copy_bytes(&log.data),
    }
}

/// Receipt attributed to one canonical block.
#[derive(Debug)]
pub struct ReceiptRecord {
    /// Transaction hash.
    pub transaction_hash: B256,
    /// Block number.
    pub block_number: u64,
    /// Block hash.
    pub block_hash: B256,
    /// Transaction index in the block.
    pub transaction_index: u64,
    /// Execution status when reported.
    pub status: Option<u64>,
    /// Gas used.
    pub gas_used: u64,
    /// Strictly ordered logs.
    pub logs: Vec<CanonicalLogRecord>,
}

/// What a canonical receipt holds.
#[verifier::ext_equal]
pub ghost struct ReceiptView {
    /// Transaction hash.
    pub transaction_hash: B256,
    /// Block number.
    pub block_number: u64,
    /// Block hash.
    pub block_hash: B256,
    /// Transaction index.
    pub transaction_index: u64,
    /// Execution status.
    pub status: Option<u64>,
    /// Gas used.
    pub gas_used: u64,
    /// Logs.
    pub logs: Seq<LogView>,
}

impl View for ReceiptRecord {
    type V = ReceiptView;

    open spec fn view(&self) -> ReceiptView {
        ReceiptView {
            transaction_hash: self.transaction_hash,
            block_number: self.block_number,
            block_hash: self.block_hash,
            transaction_index: self.transaction_index,
            status: self.status,
            gas_used: self.gas_used,
            logs: log_views(self.logs@),
        }
    }
}

/// What canonical receipts hold.
pub open spec fn receipt_views(receipts: Seq<ReceiptRecord>) -> Seq<ReceiptView> {
    Seq::new(receipts.len(), |i: int| receipts[i]@)
}

/// Whether a result is an outcome, its value by what it holds.
pub open spec fn yields<T: View>(
    r: Result<T, ChainError>,
    outcome: Result<T::V, ChainError>,
) -> bool {
    match outcome {
        Ok(value) => r is Ok && r->Ok_0@ == value,
        Err(error) => r is Err && r->Err_0 == error,
    }
}

/// The value of a quantity that a log must have.
pub open spec fn required_quantity(field: &'static str, value: Option<String>) -> Result<
    u64,
    ChainError,
> {
    match value {
        None => Err(ChainError::InvalidBundle("required log quantity is absent")),
        Some(text) => match quantity_value(text@) {
            Some(number) => Ok(number),
            None => Err(ChainError::Provider(ProviderError::Quantity { field })),
        },
    }
}

/// Parses a quantity that a log must have.
pub fn parse_optional_quantity(field: &'static str, value: &Option<String>) -> (r: Result<
    u64,
    ChainError,
>)
    ensures
        r == required_quantity(field, *value),
{
    match value {
        None => Err(ChainError::InvalidBundle("required log quantity is absent")),
        Some(text) => match parse_quantity(field, text.as_str()) {
            Ok(number) => Ok(number),
            Err(error) => Err(ChainError::Provider(error)),
        },
    }
}

/// Topics in their four places.
pub open spec fn placed_topics(topics: Seq<B256>) -> Seq<Option<B256>> {
    Seq::new(
        4,
        |i: int|
            if i < topics.len() {
                Some(topics[i])
            } else {
                None
            },
    )
}

fn topic_at(topics: &Vec<B256>, index: usize) -> (r: Option<B256>)
    ensures
        r == if index < topics@.len() {
            Some(topics@[index as int])
        } else {
            None
        },
{
    if index < topics.len() {
        Some(topics[index])
    } else {
        None
    }
}

/// The record of a log that belongs to a transaction of a block, or why it does not.
pub open spec fn log_outcome(
    chain_id: u64,
    block: BlockRef,
    receipt_transaction_hash: B256,
    receipt_transaction_index: u64,
    log: RpcLog,
) -> Result<LogView, ChainError> {
    let number = required_quantity("log.block_number", log.block_number);
    let index = required_quantity("log.transaction_index", log.transaction_index);
    let place = required_quantity("log.log_index", log.log_index);
    if log.removed {
        Err(ChainError::InvalidBundle("canonical block response contains removed log"))
    } else if number is Err {
        Err(number->Err_0)
    } else if log.block_hash is None {
        Err(ChainError::InvalidBundle("log has no block hash"))
    } else if log.transaction_hash is None {
        Err(ChainError::InvalidBundle("log has no transaction hash"))
    } else if index is Err {
        Err(index->Err_0)
    } else if place is Err {
        Err(place->Err_0)
    } else if number->Ok_0 != block.number || log.block_hash->0 != block.hash {
        Err(ChainError::InvalidBundle("log block identity mismatch"))
    } else if log.transaction_hash->0 != receipt_transaction_hash || index->Ok_0
        != receipt_transaction_index {
        Err(ChainError::InvalidBundle("log transaction identity mismatch"))
    } else if log.topics@.len() > 4 {
        Err(ChainError::InvalidBundle("log has more than four topics"))
    } else {
        Ok(
            LogView {
                chain_id,
                block_number: number->Ok_0,
                block_hash: log.block_hash->0,
                transaction_hash: log.transaction_hash->0,
                transaction_index: index->Ok_0,
                log_index: place->Ok_0,
                address: log.address,
                topics: placed_topics(log.topics@),
                data: log.data@,
            },
        )
    }
}

fn validate_log(
    chain_id: u64,
    block: BlockRef,
    receipt_transaction_hash: B256,
    receipt_transaction_index: u64,
    log: &RpcLog,
) -> (r: Result<CanonicalLogRecord, ChainError>)
    ensures
        yields(
            r,
            log_outcome(
                chain_id,
                block,
                receipt_transaction_hash,
                receipt_transaction_index,
                *log,
            ),
        ),
{
    if log.removed {
        return Err(ChainError::InvalidBundle("canonical block response contains removed log"));
    }
    let block_number: u64 = parse_optional_quantity("log.block_number", &log.block_number)?;
    let block_hash = log.block_hash.ok_or(ChainError::InvalidBundle("log has no block hash"))?;
    let transaction_hash = log.transaction_hash.ok_or(
        ChainError::InvalidBundle("log has no transaction hash"),
    )?;
    let transaction_index: u64 = parse_optional_quantity(
        "log.transaction_index",
        &log.transaction_index,
    )?;
    let log_index: u64 = parse_optional_quantity("log.log_index", &log.log_index)?;
    if block_number != block.number || block_hash != block.hash {
        return Err(ChainError::InvalidBundle("log block identity mismatch"));
    }
    if transaction_hash != receipt_transaction_hash || transaction_index
        != receipt_transaction_index {
        return Err(ChainError::InvalidBundle("log transaction identity mismatch"));
    }
    if log.topics.len() > 4 {
        return Err(ChainError::InvalidBundle("log has more than four topics"));
    }
    let topics: [Option<B256>; 4] = [
        topic_at(&log.topics, 0),
        topic_at(&log.topics, 1),
        topic_at(&log.topics, 2),
        topic_at(&log.topics, 3),
    ];
    assert(topics@ =~= placed_topics(log.topics@));
    Ok(
        CanonicalLogRecord {
            chain_id,
            block_number,
            block_hash,
            transaction_hash,
            transaction_index,
            log_index,
            address: log.address,
            topics,
            data: copy_bytes(&log.data),
        },
    )
}

/// The record of a log that a log query returned, or why it is not attributable.
pub open spec fn standalone_outcome(chain_id: u64, block: BlockRef, log: RpcLog) -> Result<
    LogView,
    ChainError,
> {
    let index = required_quantity("log.transaction_index", log.transaction_index);
    if log.transaction_hash is None {
        Err(ChainError::InvalidBundle("log has no transaction hash"))
    } else if index is Err {
        Err(index->Err_0)
    } else {
        log_outcome(chain_id, block, log.transaction_hash->0, index->Ok_0, log)
    }
}

/// Validates a log returned by deterministic `eth_getLogs` fallback.
pub fn validate_standalone_log(chain_id: u64, block: BlockRef, log: &RpcLog) -> (r: Result<
    CanonicalLogRecord,
    ChainError,
>)
    ensures
        yields(r, standalone_outcome(chain_id, block, *log)),
{
    let transaction_hash = log.transaction_hash.ok_or(
        ChainError::InvalidBundle("log has no transaction hash"),
    )?;
    let transaction_index: u64 = parse_optional_quantity(
        "log.transaction_index",
        &log.transaction_index,
    )?;
    validate_log(chain_id, block, transaction_hash, transaction_index, log)
}

/// Records of the logs from index `from` on, or the first failure.
pub open spec fn logs_from(
    chain_id: u64,
    block: BlockRef,
    transaction_hash: B256,
    transaction_index: u64,
    logs: Seq<RpcLog>,
    from: int,
    done: Seq<LogView>,
) -> Result<Seq<LogView>, ChainError>
    decreases logs.len() - from,
{
    if from >= logs.len() {
        Ok(done)
    } else {
        match log_outcome(chain_id, block, transaction_hash, transaction_index, logs[from]) {
            Err(error) => Err(error),
            Ok(log) => logs_from(
                chain_id,
                block,
                transaction_hash,
                transaction_index,
                logs,
                from + 1,
                done.push(log),
            ),
        }
    }
}

/// Whether log indexes increase strictly.
pub open spec fn logs_increase(logs: Seq<LogView>) -> bool {
    forall|i: int, j: int|
        0 <= i < j < logs.len() ==> (#[trigger] logs[i]).log_index < (#[trigger] logs[j]).log_index
}

/// An optional quantity, or its failure.
pub open spec fn status_outcome(status: Option<String>) -> Result<Option<u64>, ChainError> {
    match status {
        None => Ok(None),
        Some(text) => match quantity_value(text@) {
            Some(value) => Ok(Some(value)),
            None => Err(ChainError::Provider(ProviderError::Quantity { field: "receipt.status" })),
        },
    }
}

/// The record of a receipt of a block, or why it does not belong to it.
pub open spec fn receipt_outcome(chain_id: u64, block: BlockRef, receipt: RpcReceipt) -> Result<
    ReceiptView,
    ChainError,
> {
    let number = quantity_value(receipt.block_number@);
    let index = quantity_value(receipt.transaction_index@);
    let status = status_outcome(receipt.status);
    let gas = quantity_value(receipt.gas_used@);
    if number is None {
        Err(ChainError::Provider(ProviderError::Quantity { field: "receipt.block_number" }))
    } else if number->0 != block.number || receipt.block_hash != block.hash {
        Err(ChainError::InvalidBundle("receipt block number or hash mismatch"))
    } else if index is None {
        Err(ChainError::Provider(ProviderError::Quantity { field: "receipt.transaction_index" }))
    } else if status is Err {
        Err(status->Err_0)
    } else if gas is None {
        Err(ChainError::Provider(ProviderError::Quantity { field: "receipt.gas_used" }))
    } else {
        match logs_from(
            chain_id,
            block,
            receipt.transaction_hash,
            index->0,
            receipt.logs@,
            0,
            Seq::empty(),
        ) {
            Err(error) => Err(error),
            Ok(logs) => if !logs_increase(logs) {
                Err(ChainError::InvalidBundle("receipt logs are not strictly ordered"))
            } else {
                Ok(
                    ReceiptView {
                        transaction_hash: receipt.transaction_hash,
                        block_number: number->0,
                        block_hash: receipt.block_hash,
                        transaction_index: index->0,
                        status: status->Ok_0,
                        gas_used: gas->0,
                        logs,
                    },
                )
            },
        }
    }
}

fn read_quantity(field: &'static str, text: &String) -> (r: Result<u64, ChainError>)
    ensures
        r == quantity_value(text@).ok_or(ChainError::Provider(ProviderError::Quantity { field })),
{
    match parse_quantity(field, text.as_str()) {
        Ok(value) => Ok(value),
        Err(error) => Err(ChainError::Provider(error)),
    }
}

fn read_logs(
    chain_id: u64,
    block: BlockRef,
    transaction_hash: B256,
    transaction_index: u64,
    logs: &Vec<RpcLog>,
) -> (r: Result<Vec<CanonicalLogRecord>, ChainError>)
    ensures
        match logs_from(
            chain_id,
            block,
            transaction_hash,
            transaction_index,
            logs@,
            0,
            Seq::empty(),
        ) {
            Ok(views) => r is Ok && log_views(r->Ok_0@) == views,
            Err(error) => r is Err && r->Err_0 == error,
        },
{
    let mut records: Vec<CanonicalLogRecord> = Vec::new();
    assert(log_views(records@) =~= Seq::empty());
    let mut i: usize = 0;
    while i < logs.len()
        invariant
            i <= logs.len(),
            logs_from(
                chain_id,
                block,
                transaction_hash,
                transaction_index,
                logs@,
                0,
                Seq::empty(),
            ) == logs_from(
                chain_id,
                block,
                transaction_hash,
                transaction_index,
                logs@,
                i as int,
                log_views(records@),
            ),
        decreases logs.len() - i,
    {
        let log = validate_log(chain_id, block, transaction_hash, transaction_index, &logs[i])?;
        let ghost held = log_views(records@);
        let ghost added = log@;
        records.push(log);
        assert(log_views(records@) =~= held.push(added));
        i = i + 1;
    }
    Ok(records)
}

fn are_logs_increasing(logs: &Vec<CanonicalLogRecord>) -> (r: bool)
    ensures
        r == logs_increase(log_views(logs@)),
{
    let ghost views = log_views(logs@);
    let mut i: usize = 1;
    while i < logs.len()
        invariant
            1 <= i,
            views == log_views(logs@),
            forall|a: int, b: int|
                0 <= a < b < i && b < logs.len() ==> (#[trigger] views[a]).log_index < (
                #[trigger] views[b]).log_index,
        decreases logs.len() - i,
    {
        if logs[i - 1].log_index >= logs[i].log_index {
            assert(views[i - 1].log_index >= views[i as int].log_index);
            return false;
        }
        assert(views[i - 1].log_index < views[i as int].log_index);
        i = i + 1;
    }
    true
}

/// Validates and converts a single receipt against an exact header.
pub fn validate_receipt(chain_id: u64, block: BlockRef, receipt: &RpcReceipt) -> (r: Result<
    ReceiptRecord,
    ChainError,
>)
    ensures
        yields(r, receipt_outcome(chain_id, block, *receipt)),
{
    let block_number: u64 = read_quantity("receipt.block_number", &receipt.block_number)?;
    if block_number != block.number || receipt.block_hash != block.hash {
        return Err(ChainError::InvalidBundle("receipt block number or hash mismatch"));
    }
    let transaction_index: u64 = read_quantity(
        "receipt.transaction_index",
        &receipt.transaction_index,
    )?;
    let status = match &receipt.status {
        Some(text) => Some(read_quantity("receipt.status", text)?),
        None => None,
    };
    let gas_used: u64 = read_quantity("receipt.gas_used", &receipt.gas_used)?;
    let logs = read_logs(
        chain_id,
        block,
        receipt.transaction_hash,
        transaction_index,
        &receipt.logs,
    )?;
    if !are_logs_increasing(&logs) {
        return Err(ChainError::InvalidBundle("receipt logs are not strictly ordered"));
    }
    Ok(
        ReceiptRecord {
            transaction_hash: receipt.transaction_hash,
            block_number,
            block_hash: receipt.block_hash,
            transaction_index,
            status,
            gas_used,
            logs,
        },
    )
}

/// Number of leading receipts from index `from` on whose transaction index is at most `index`.
pub open spec fn receipt_place_from(sorted: Seq<ReceiptView>, index: u64, from: int) -> int
    decreases sorted.len() - from,
{
    if from >= sorted.len() || sorted[from].transaction_index > index {
        from
    } else {
        receipt_place_from(sorted, index, from + 1)
    }
}

/// Receipts in transaction order with one more behind its equals.
pub open spec fn with_receipt(sorted: Seq<ReceiptView>, receipt: ReceiptView) -> Seq<ReceiptView> {
    sorted.insert(receipt_place_from(sorted, receipt.transaction_index, 0), receipt)
}

/// Adds a receipt at its place in transaction order.
pub fn insert_receipt(sorted: &mut Vec<ReceiptRecord>, receipt: ReceiptRecord)
    ensures
        receipt_views(final(sorted)@) == with_receipt(receipt_views(old(sorted)@), receipt@),
{
    let ghost held = receipt_views(sorted@);
    let ghost added = receipt@;
    let mut place: usize = 0;
    while place < sorted.len() && sorted[place].transaction_index <= receipt.transaction_index
        invariant
            place <= sorted.len(),
            *sorted == *old(sorted),
            held == receipt_views(sorted@),
            added == receipt@,
            receipt_place_from(held, added.transaction_index, 0) == receipt_place_from(
                held,
                added.transaction_index,
                place as int,
            ),
        decreases sorted.len() - place,
    {
        place = place + 1;
    }
    sorted.insert(place, receipt);
    assert(receipt_views(sorted@) =~= held.insert(place as int, added));
}

/// Records of the receipts from index `from` on in transaction order, or the first failure.
pub open spec fn receipts_from(
    chain_id: u64,
    block: BlockRef,
    receipts: Seq<RpcReceipt>,
    from: int,
    done: Seq<ReceiptView>,
) -> Result<Seq<ReceiptView>, ChainError>
    decreases receipts.len() - from,
{
    if from >= receipts.len() {
        Ok(done)
    } else {
        match receipt_outcome(chain_id, block, receipts[from]) {
            Err(error) => Err(error),
            Ok(receipt) => receipts_from(
                chain_id,
                block,
                receipts,
                from + 1,
                with_receipt(done, receipt),
            ),
        }
    }
}

/// Whether no two receipts share a transaction index or hash.
pub open spec fn receipts_distinct(receipts: Seq<ReceiptView>) -> bool {
    forall|i: int, j: int|
        0 <= i < j < receipts.len() ==> (#[trigger] receipts[i]).transaction_index != (
        #[trigger] receipts[j]).transaction_index && receipts[i].transaction_hash
            != receipts[j].transaction_hash
}

/// The ordered records of a block's receipts, or why they are not one bundle.
pub open spec fn receipts_outcome(
    chain_id: u64,
    block: BlockRef,
    receipts: Seq<RpcReceipt>,
) -> Result<Seq<ReceiptView>, ChainError> {
    match receipts_from(chain_id, block, receipts, 0, Seq::empty()) {
        Err(error) => Err(error),
        Ok(sorted) => if receipts_distinct(sorted) {
            Ok(sorted)
        } else {
            Err(ChainError::InvalidBundle("duplicate transaction receipt in block"))
        },
    }
}

fn are_receipts_distinct(receipts: &Vec<ReceiptRecord>) -> (r: bool)
    ensures
        r == receipts_distinct(receipt_views(receipts@)),
{
    let ghost views = receipt_views(receipts@);
    let mut j: usize = 0;
    while j < receipts.len()
        invariant
            j <= receipts.len(),
            views == receipt_views(receipts@),
            forall|a: int, b: int|
                0 <= a < b < j ==> (#[trigger] views[a]).transaction_index != (
                #[trigger] views[b]).transaction_index && views[a].transaction_hash
                    != views[b].transaction_hash,
        decreases receipts.len() - j,
    {
        let mut i: usize = 0;
        while i < j
            invariant
                i <= j,
                j < receipts.len(),
                views == receipt_views(receipts@),
                forall|a: int|
                    0 <= a < i ==> (#[trigger] views[a]).transaction_index
                        != views[j as int].transaction_index && views[a].transaction_hash
                        != views[j as int].transaction_hash,
            decreases j - i,
        {
            if receipts[i].transaction_index == receipts[j].transaction_index
                || receipts[i].transaction_hash == receipts[j].transaction_hash {
                assert(views[i as int].transaction_index == views[j as int].transaction_index
                    || views[i as int].transaction_hash == views[j as int].transaction_hash);
                return false;
            }
            i = i + 1;
        }
        j = j + 1;
    }
    true
}

/// Validates, orders, and converts one block's complete receipt response.
pub fn validate_receipts(chain_id: u64, block: BlockRef, receipts: &Vec<RpcReceipt>) -> (r: Result<
    Vec<ReceiptRecord>,
    ChainError,
>)
    ensures
        match receipts_outcome(chain_id, block, receipts@) {
            Ok(views) => r is Ok && receipt_views(r->Ok_0@) == views,
            Err(error) => r is Err && r->Err_0 == error,
        },
{
    let mut sorted: Vec<ReceiptRecord> = Vec::new();
    assert(receipt_views(sorted@) =~= Seq::empty());
    let mut i: usize = 0;
    while i < receipts.len()
        invariant
            i <= receipts.len(),
            receipts_from(chain_id, block, receipts@, 0, Seq::empty()) == receipts_from(
                chain_id,
                block,
                receipts@,
                i as int,
                receipt_views(sorted@),
            ),
        decreases receipts.len() - i,
    {
        let receipt = validate_receipt(chain_id, block, &receipts[i])?;
        insert_receipt(&mut sorted, receipt);
        i = i + 1;
    }
    if !are_receipts_distinct(&sorted) {
        return Err(ChainError::InvalidBundle("duplicate transaction receipt in block"));
    }
    Ok(sorted)
}

/// Watched logs of one receipt's logs from index `from` on, added to those kept.
pub open spec fn watched_from(
    logs: Seq<LogView>,
    watched: Seq<Address>,
    from: int,
    kept: Seq<LogView>,
) -> Seq<LogView>
    decreases logs.len() - from,
{
    if from >= logs.len() {
        kept
    } else {
        watched_from(
            logs,
            watched,
            from + 1,
            if has_key(watched, logs[from].address) {
                kept.push(logs[from])
            } else {
                kept
            },
        )
    }
}

/// Watched logs of the receipts from index `from` on, added to those kept.
pub open spec fn watched_in_receipts_from(
    receipts: Seq<ReceiptView>,
    watched: Seq<Address>,
    from: int,
    kept: Seq<LogView>,
) -> Seq<LogView>
    decreases receipts.len() - from,
{
    if from >= receipts.len() {
        kept
    } else {
        watched_in_receipts_from(
            receipts,
            watched,
            from + 1,
            watched_from(receipts[from].logs, watched, 0, kept),
        )
    }
}

/// Extracts only configured watched-address logs while preserving canonical order.
pub fn watched_logs(receipts: &Vec<ReceiptRecord>, watched_addresses: &OrderedSet<Address>) -> (r:
    Vec<CanonicalLogRecord>)
    ensures
        log_views(r@) == watched_in_receipts_from(
            receipt_views(receipts@),
            watched_addresses@,
            0,
            Seq::empty(),
        ),
{
    let mut kept: Vec<CanonicalLogRecord> = Vec::new();
    assert(log_views(kept@) =~= Seq::empty());
    let ghost views = receipt_views(receipts@);
    let ghost goal = watched_in_receipts_from(views, watched_addresses@, 0, Seq::empty());
    let mut i: usize = 0;
    while i < receipts.len()
        invariant
            i <= receipts.len(),
            views == receipt_views(receipts@),
            goal == watched_in_receipts_from(
                views,
                watched_addresses@,
                i as int,
                log_views(kept@),
            ),
        decreases receipts.len() - i,
    {
        let logs = &receipts[i].logs;
        let ghost inner = watched_from(
            views[i as int].logs,
            watched_addresses@,
            0,
            log_views(kept@),
        );
        let mut j: usize = 0;
        while j < logs.len()
            invariant
                i < receipts.len(),
                j <= logs.len(),
                *logs == receipts@[i as int].logs,
                views == receipt_views(receipts@),
                inner == watched_from(
                    views[i as int].logs,
                    watched_addresses@,
                    j as int,
                    log_views(kept@),
                ),
            decreases logs.len() - j,
        {
            assert(views[i as int].logs[j as int] == logs@[j as int]@);
            if watched_addresses.contains(logs[j].address) {
                let log = copy_log(&logs[j]);
                let ghost held = log_views(kept@);
                let ghost added = log@;
                kept.push(log);
                assert(log_views(kept@) =~= held.push(added));
            }
            j = j + 1;
        }
        i = i + 1;
    }
    kept
}

/// An accepted log carries exactly the identity of its block and transaction.
pub proof fn accepted_log_is_attributed(
    chain_id: u64,
    block: BlockRef,
    transaction_hash: B256,
    transaction_index: u64,
    log: RpcLog,
)
    requires
        log_outcome(chain_id, block, transaction_hash, transaction_index, log) is Ok,
    ensures
        ({
            let record = log_outcome(
                chain_id,
                block,
                transaction_hash,
                transaction_index,
                log,
            )->Ok_0;
            &&& record.chain_id == chain_id
            &&& record.block_number == block.number
            &&& record.block_hash == block.hash
            &&& record.transaction_hash == transaction_hash
            &&& record.transaction_index == transaction_index
            &&& record.address == log.address
            &&& record.data == log.data@
            &&& !log.removed
        }),
{
}

/// Whether receipts are in transaction order.
pub open spec fn receipts_ordered(receipts: Seq<ReceiptView>) -> bool {
    forall|i: int, j: int|
        0 <= i < j < receipts.len() ==> (#[trigger] receipts[i]).transaction_index <= (
        #[trigger] receipts[j]).transaction_index
}

proof fn lemma_receipt_place(sorted: Seq<ReceiptView>, index: u64, from: int)
    requires
        0 <= from <= sorted.len(),
    ensures
        from <= receipt_place_from(sorted, index, from) <= sorted.len(),
        forall|i: int|
            from <= i < receipt_place_from(sorted, index, from) ==> (
            #[trigger] sorted[i]).transaction_index <= index,
        receipt_place_from(sorted, index, from) < sorted.len() ==> sorted[receipt_place_from(
            sorted,
            index,
            from,
        )].transaction_index > index,
    decreases sorted.len() - from,
{
    if from < sorted.len() && sorted[from].transaction_index <= index {
        lemma_receipt_place(sorted, index, from + 1);
    }
}

proof fn lemma_with_receipt(sorted: Seq<ReceiptView>, receipt: ReceiptView)
    requires
        receipts_ordered(sorted),
    ensures
        receipts_ordered(with_receipt(sorted, receipt)),
{
    let place = receipt_place_from(sorted, receipt.transaction_index, 0);
    let next = with_receipt(sorted, receipt);
    lemma_receipt_place(sorted, receipt.transaction_index, 0);
    assert forall|i: int, j: int| 0 <= i < j < next.len() implies (
    #[trigger] next[i]).transaction_index <= (#[trigger] next[j]).transaction_index by {
        if i < place && j == place {
            assert(sorted[i].transaction_index <= receipt.transaction_index);
        } else if i == place {
            assert(next[j] == sorted[j - 1]);
            if j - 1 > place {
                assert(sorted[place].transaction_index <= sorted[j - 1].transaction_index);
            }
        } else if i > place {
            assert(sorted[i - 1].transaction_index <= sorted[j - 1].transaction_index);
        } else if j > place {
            assert(sorted[i].transaction_index <= sorted[j - 1].transaction_index);
        }
    }
}

proof fn lemma_receipts_from(
    chain_id: u64,
    block: BlockRef,
    receipts: Seq<RpcReceipt>,
    from: int,
    done: Seq<ReceiptView>,
)
    requires
        0 <= from <= receipts.len(),
        receipts_ordered(done),
        forall|i: int|
            0 <= i < done.len() ==> (#[trigger] done[i]).block_number == block.number
                && done[i].block_hash == block.hash && logs_increase(done[i].logs),
        receipts_from(chain_id, block, receipts, from, done) is Ok,
    ensures
        ({
            let sorted = receipts_from(chain_id, block, receipts, from, done)->Ok_0;
            &&& receipts_ordered(sorted)
            &&& sorted.len() == done.len() + receipts.len() - from
            &&& forall|i: int|
                0 <= i < sorted.len() ==> (#[trigger] sorted[i]).block_number == block.number
                    && sorted[i].block_hash == block.hash && logs_increase(sorted[i].logs)
        }),
    decreases receipts.len() - from,
{
    if from < receipts.len() {
        let receipt = receipt_outcome(chain_id, block, receipts[from])->Ok_0;
        let place = receipt_place_from(done, receipt.transaction_index, 0);
        let next = with_receipt(done, receipt);
        lemma_with_receipt(done, receipt);
        lemma_receipt_place(done, receipt.transaction_index, 0);
        assert forall|i: int| 0 <= i < next.len() implies (#[trigger] next[i]).block_number
            == block.number && next[i].block_hash == block.hash && logs_increase(
            next[i].logs,
        ) by {
            if i < place {
                assert(next[i] == done[i]);
            } else if i > place {
                assert(next[i] == done[i - 1]);
            }
        }
        lemma_receipts_from(chain_id, block, receipts, from + 1, next);
    }
}

/// Accepted receipts are all of the block's, in strictly increasing transaction order, each with
/// strictly increasing log indexes.
pub proof fn accepted_receipts_are_ordered_and_complete(
    chain_id: u64,
    block: BlockRef,
    receipts: Seq<RpcReceipt>,
)
    requires
        receipts_outcome(chain_id, block, receipts) is Ok,
    ensures
        ({
            let accepted = receipts_outcome(chain_id, block, receipts)->Ok_0;
            &&& accepted.len() == receipts.len()
            &&& forall|i: int, j: int|
                0 <= i < j < accepted.len() ==> (#[trigger] accepted[i]).transaction_index < (
                #[trigger] accepted[j]).transaction_index
            &&& forall|i: int|
                0 <= i < accepted.len() ==> (#[trigger] accepted[i]).block_number == block.number
                    && accepted[i].block_hash == block.hash && logs_increase(accepted[i].logs)
        }),
{
    lemma_receipts_from(chain_id, block, receipts, 0, Seq::empty());
}

} // verus!
