//! Decisions of durable canonical head polling, catch-up, checkpointing, and replay.

use vstd::prelude::*;
use vstd::string::*;
use vstd::utf8::*;

use crate::collections::{has_key, value_of, with_key, OrderedMap, OrderedSet};
use crate::domain::BlockRef;
use crate::primitives::{
    b256, group_address, group_b256, group_u256, keccak256, keccak256_digest, Address, B256,
};

use super::provider::{
    parse_quantity, quantity_value, require_role, ProviderError, ProviderRole, RpcLog,
};
use super::receipts::{
    log_views, receipt_views, standalone_outcome, validate_standalone_log, with_receipt, yields,
    CanonicalLogRecord, LogView, ReceiptRecord, ReceiptView,
};
use super::provider_consensus::reversed;
use super::receipts::insert_receipt;
use super::ChainError;

verus! {

/// Addresses per log query.
pub const ADDRESS_GROUP_SIZE: usize = 64;

/// Longest catch-up whose every block is published.
pub const MAX_PUBLISHED_CATCH_UP_BLOCKS: u64 = 8;

/// Attempts of one log query.
pub const MAX_LOG_QUERY_ATTEMPTS: u32 = 3;

/// Fail-closed predicate for retaining only execution-relevant canonical logs.
pub trait CanonicalLogFilter {
    /// Returns whether a strictly attributable log must enter durable replay state.
    fn retain(&self, log: &CanonicalLogRecord) -> (r: Result<bool, ChainError>);
}

/// Asks the installed filter; without one every log is retained.
pub fn retain_log<F: CanonicalLogFilter>(filter: Option<&F>, log: &CanonicalLogRecord) -> (r:
    Result<bool, ChainError>)
    ensures
        filter is None ==> r == Ok::<bool, ChainError>(true),
        filter is Some ==> call_ensures(F::retain, (filter->0, log), r),
{
    match filter {
        Some(filter) => filter.retain(log),
        None => Ok(true),
    }
}

/// Canonical chain-service settings after fail-closed validation.
pub struct ChainServiceConfig {
    /// EVM chain ID.
    pub chain_id: u64,
    /// First block included in canonical replay.
    pub event_start_block: u64,
    /// Maximum `eth_getLogs` range.
    pub maximum_log_range: u64,
    /// Maximum old/new ancestor search depth.
    pub reorg_rescan_blocks: u64,
    /// Exact watched address set.
    pub watched_addresses: OrderedSet<Address>,
    /// Scan relevant logs and retain only a bounded recent header window during large catch-up.
    ///
    /// This is used by latest-state chains where events invalidate planning state but historical
    /// state calls are neither required nor assumed to be available.
    pub latest_only: bool,
}

impl ChainServiceConfig {
    /// Enforces positive request and rewind bounds.
    pub fn validate(self) -> (r: Result<Self, ChainError>)
        ensures
            r == if self.maximum_log_range == 0 {
                Err(ChainError::InvalidConfiguration("maximum_log_range must be positive"))
            } else if self.reorg_rescan_blocks == 0 {
                Err(ChainError::InvalidConfiguration("reorg_rescan_blocks must be positive"))
            } else {
                Ok(self)
            },
    {
        if self.maximum_log_range == 0 {
            return Err(ChainError::InvalidConfiguration("maximum_log_range must be positive"));
        }
        if self.reorg_rescan_blocks == 0 {
            return Err(ChainError::InvalidConfiguration("reorg_rescan_blocks must be positive"));
        }
        Ok(self)
    }
}

/// The first role that a chain service's primary or checkpoint provider lacks.
pub open spec fn service_role_failure(
    primary: String,
    primary_roles: Seq<ProviderRole>,
    checkpoint: Option<(String, Seq<ProviderRole>)>,
) -> Option<ProviderError> {
    if !has_key(primary_roles, ProviderRole::Head) {
        Some(ProviderError::MissingRole { provider: primary, role: ProviderRole::Head })
    } else if !has_key(primary_roles, ProviderRole::Logs) {
        Some(ProviderError::MissingRole { provider: primary, role: ProviderRole::Logs })
    } else if !has_key(primary_roles, ProviderRole::Receipt) {
        Some(ProviderError::MissingRole { provider: primary, role: ProviderRole::Receipt })
    } else {
        match checkpoint {
            Some((name, roles)) => if has_key(roles, ProviderRole::Checkpoint) {
                None
            } else {
                Some(ProviderError::MissingRole { provider: name, role: ProviderRole::Checkpoint })
            },
            None => None,
        }
    }
}

/// Refuses providers without the roles that canonical ingestion needs.
pub fn check_service_roles(
    primary: &String,
    primary_roles: &OrderedSet<ProviderRole>,
    checkpoint: Option<(&String, &OrderedSet<ProviderRole>)>,
) -> (r: Result<(), ProviderError>)
    ensures
        r == (match service_role_failure(
            *primary,
            primary_roles@,
            match checkpoint {
                Some((name, roles)) => Some((*name, roles@)),
                None => None,
            },
        ) {
            Some(error) => Err::<(), ProviderError>(error),
            None => Ok(()),
        }),
{
    require_role(primary, primary_roles, ProviderRole::Head)?;
    require_role(primary, primary_roles, ProviderRole::Logs)?;
    require_role(primary, primary_roles, ProviderRole::Receipt)?;
    match checkpoint {
        Some((name, roles)) => require_role(name, roles, ProviderRole::Checkpoint),
        None => Ok(()),
    }
}

/// Refuses a provider of another chain.
pub fn check_chain_id(expected: u64, observed: u64) -> (r: Result<(), ProviderError>)
    ensures
        r == if observed == expected {
            Ok(())
        } else {
            Err(ProviderError::ChainMismatch { expected, observed })
        },
{
    if observed != expected {
        return Err(ProviderError::ChainMismatch { expected, observed });
    }
    Ok(())
}

/// A number clamped to the range of block numbers.
pub open spec fn clamped(number: int) -> u64 {
    if number < 0 {
        0
    } else if number > u64::MAX {
        u64::MAX
    } else {
        number as u64
    }
}

/// What one poll does after the latest header is known.
#[derive(Clone, Copy, Debug, PartialEq, Eq, Structural)]
pub enum PollPlan {
    /// Nothing is new.
    Idle,
    /// Scan relevant logs from `start` and retain a bounded recent window.
    LatestOnly {
        /// First block.
        start: u64,
    },
    /// Ingest every block from `start`.
    CatchUp {
        /// First block.
        start: u64,
        /// Whether each block is published.
        publish: bool,
    },
    /// Find the common ancestor, rewind and replay.
    Rewind,
}

/// How a range of blocks is ingested.
pub open spec fn ingestion(latest_only: bool, start: u64, latest: u64) -> PollPlan {
    let span = clamped(clamped(latest - start) + 1);
    if latest_only && span > MAX_PUBLISHED_CATCH_UP_BLOCKS {
        PollPlan::LatestOnly { start }
    } else {
        PollPlan::CatchUp { start, publish: span <= MAX_PUBLISHED_CATCH_UP_BLOCKS }
    }
}

fn plan_ingestion(latest_only: bool, start: u64, latest: u64) -> (r: PollPlan)
    ensures
        r == ingestion(latest_only, start, latest),
{
    let span: u64 = latest.saturating_sub(start).saturating_add(1);
    if latest_only && span > MAX_PUBLISHED_CATCH_UP_BLOCKS {
        PollPlan::LatestOnly { start }
    } else {
        PollPlan::CatchUp { start, publish: span <= MAX_PUBLISHED_CATCH_UP_BLOCKS }
    }
}

/// Plans a poll without a durable cursor.
pub fn plan_first_poll(config: &ChainServiceConfig, latest: BlockRef) -> (r: PollPlan)
    ensures
        r == ingestion(config.latest_only, config.event_start_block, latest.number),
{
    plan_ingestion(config.latest_only, config.event_start_block, latest.number)
}

/// Whether the latest header is the cursor's next block by height.
pub open spec fn next_height(latest: BlockRef, cursor: BlockRef) -> bool {
    latest.number == clamped(cursor.number + 1)
}

/// Whether the header at the cursor's height must be read to judge the cursor.
pub open spec fn cursor_header_due(latest: BlockRef, cursor: BlockRef) -> bool {
    !next_height(latest, cursor) && latest.number >= cursor.number
}

/// Returns whether the header at the cursor's height must be read. The header that extends the
/// cursor directly proves the cursor by its parent hash.
pub fn needs_cursor_header(latest: BlockRef, cursor: BlockRef) -> (r: bool)
    ensures
        r == cursor_header_due(latest, cursor),
{
    latest.number != cursor.number.saturating_add(1) && latest.number >= cursor.number
}

/// Whether the cursor is still canonical, given the hash read at its height where one was due.
pub open spec fn cursor_canonical(
    latest: BlockRef,
    cursor: BlockRef,
    observed: Option<B256>,
) -> bool {
    if next_height(latest, cursor) {
        latest.parent_hash == cursor.hash
    } else if latest.number >= cursor.number {
        observed == Some(cursor.hash)
    } else {
        false
    }
}

/// What one poll does with a durable cursor.
pub open spec fn poll_plan(
    latest_only: bool,
    latest: BlockRef,
    cursor: BlockRef,
    observed: Option<B256>,
) -> PollPlan {
    if !cursor_canonical(latest, cursor, observed) || (latest.number == cursor.number
        && latest.hash != cursor.hash) {
        PollPlan::Rewind
    } else if latest.number > cursor.number {
        ingestion(latest_only, clamped(cursor.number + 1), latest.number)
    } else {
        PollPlan::Idle
    }
}

/// Plans a poll from a durable cursor and the hash at its height, where that was due.
pub fn plan_next_poll(
    config: &ChainServiceConfig,
    latest: BlockRef,
    cursor: BlockRef,
    observed: Option<B256>,
) -> (r: PollPlan)
    ensures
        r == poll_plan(config.latest_only, latest, cursor, observed),
{
    let canonical = if latest.number == cursor.number.saturating_add(1) {
        latest.parent_hash == cursor.hash
    } else if latest.number >= cursor.number {
        match observed {
            Some(hash) => hash == cursor.hash,
            None => false,
        }
    } else {
        false
    };
    if !canonical || (latest.number == cursor.number && latest.hash != cursor.hash) {
        PollPlan::Rewind
    } else if latest.number > cursor.number {
        plan_ingestion(config.latest_only, cursor.number.saturating_add(1), latest.number)
    } else {
        PollPlan::Idle
    }
}

/// A poll that does not rewind ingests every block above the cursor through the latest one, and
/// does so only over a cursor that the provider still reports.
pub proof fn polls_skip_no_block(
    latest_only: bool,
    latest: BlockRef,
    cursor: BlockRef,
    observed: Option<B256>,
)
    requires
        cursor.number < u64::MAX,
    ensures
        match poll_plan(latest_only, latest, cursor, observed) {
            PollPlan::Idle => latest.number == cursor.number && latest.hash == cursor.hash,
            PollPlan::LatestOnly { start } => start == cursor.number + 1 && start
                <= latest.number && cursor_canonical(latest, cursor, observed),
            PollPlan::CatchUp { start, .. } => start == cursor.number + 1 && start
                <= latest.number && cursor_canonical(latest, cursor, observed),
            PollPlan::Rewind => true,
        },
{
}

/// Whether a block is the direct successor of the previous one, where there is one.
pub open spec fn extends(previous: Option<BlockRef>, block: BlockRef) -> bool {
    match previous {
        Some(parent) => block.number == clamped(parent.number + 1) && block.parent_hash
            == parent.hash,
        None => true,
    }
}

fn is_extension(previous: Option<BlockRef>, block: BlockRef) -> (r: bool)
    ensures
        r == extends(previous, block),
{
    match previous {
        Some(parent) => block.number == parent.number.saturating_add(1) && block.parent_hash
            == parent.hash,
        None => true,
    }
}

/// Refuses a block that does not extend the previous one of a bounded catch-up.
pub fn check_catch_up(previous: Option<BlockRef>, block: BlockRef) -> (r: Result<(), ChainError>)
    ensures
        r == if extends(previous, block) {
            Ok(())
        } else {
            Err(ChainError::InvalidBundle("canonical head changed during bounded catch-up"))
        },
{
    if !is_extension(previous, block) {
        return Err(ChainError::InvalidBundle("canonical head changed during bounded catch-up"));
    }
    Ok(())
}

/// Previous recent block after one more block of a latest-only catch-up.
pub open spec fn recent_after(
    previous: Option<BlockRef>,
    block: BlockRef,
    recent_start: u64,
) -> Result<Option<BlockRef>, ChainError> {
    if block.number < recent_start {
        Ok(previous)
    } else if extends(previous, block) {
        Ok(Some(block))
    } else {
        Err(ChainError::InvalidBundle("canonical head changed during latest-only catch-up"))
    }
}

/// Refuses a recent block that does not extend the previous recent one; older blocks may be sparse.
pub fn check_recent(previous: Option<BlockRef>, block: BlockRef, recent_start: u64) -> (r: Result<
    Option<BlockRef>,
    ChainError,
>)
    ensures
        r == recent_after(previous, block, recent_start),
{
    if block.number < recent_start {
        return Ok(previous);
    }
    if !is_extension(previous, block) {
        return Err(
            ChainError::InvalidBundle("canonical head changed during latest-only catch-up"),
        );
    }
    Ok(Some(block))
}

/// Refuses a catch-up whose selected head is no longer canonical.
pub fn check_selected_head(latest: BlockRef, observed: B256) -> (r: Result<(), ChainError>)
    ensures
        r == if observed == latest.hash {
            Ok(())
        } else {
            Err(ChainError::InvalidBundle("selected latest head was reorganized during catch-up"))
        },
{
    if observed != latest.hash {
        return Err(
            ChainError::InvalidBundle("selected latest head was reorganized during catch-up"),
        );
    }
    Ok(())
}

/// First block of the recent window that is retained without gaps.
pub open spec fn recent_start_of(start: u64, latest: u64, reorg_rescan_blocks: u64) -> u64 {
    let window = clamped(clamped(latest - reorg_rescan_blocks) + 1);
    if window > start {
        window
    } else {
        start
    }
}

/// Returns the first block of the recent window that is retained without gaps.
pub fn recent_start(start: u64, latest: u64, reorg_rescan_blocks: u64) -> (r: u64)
    ensures
        r == recent_start_of(start, latest, reorg_rescan_blocks),
{
    let window: u64 = latest.saturating_sub(reorg_rescan_blocks).saturating_add(1);
    if window > start {
        window
    } else {
        start
    }
}

/// Block numbers with every number from `from` through `to`.
pub open spec fn with_range(numbers: Seq<u64>, from: int, to: int) -> Seq<u64>
    decreases to - from + 1,
{
    if from > to {
        numbers
    } else {
        with_range(with_key(numbers, from as u64), from + 1, to)
    }
}

/// Adds every block of the recent window to the relevant blocks.
pub fn add_recent_blocks(numbers: &mut OrderedSet<u64>, from: u64, to: u64)
    ensures
        final(numbers)@ == with_range(old(numbers)@, from as int, to as int),
        old(numbers).wf() ==> final(numbers).wf(),
{
    if from > to {
        return ;
    }
    let mut number: u64 = from;
    while number < to
        invariant
            from <= number <= to,
            with_range(old(numbers)@, from as int, to as int) == with_range(
                numbers@,
                number as int,
                to as int,
            ),
            old(numbers).wf() ==> numbers.wf(),
        decreases to - number,
    {
        let _added = numbers.insert(number);
        number = number + 1;
    }
    let _added = numbers.insert(to);
    assert(with_range(numbers@, to + 1, to as int) == numbers@);
}

/// `Transfer(address,address,uint256)`, the ERC-20 transfer event.
pub open spec fn transfer_topic() -> B256 {
    b256(keccak256_digest(encode_utf8("Transfer(address,address,uint256)"@)))
}

/// Signature topic of the ERC-20 transfer event.
pub fn transfer_signature() -> (r: B256)
    ensures
        r == transfer_topic(),
{
    broadcast use group_b256;

    keccak256("Transfer(address,address,uint256)".as_bytes())
}

/// One log query: block range, addresses, and topic alternatives by place.
#[derive(Debug)]
pub struct LogQuery {
    /// First block.
    pub from: u64,
    /// Last block.
    pub to: u64,
    /// Queried addresses.
    pub addresses: Vec<Address>,
    /// Accepted topics by place; none accepts any topic.
    pub topics: Vec<Option<Vec<B256>>>,
}

/// What a log query holds.
#[verifier::ext_equal]
pub ghost struct QueryView {
    /// First block.
    pub from: u64,
    /// Last block.
    pub to: u64,
    /// Addresses.
    pub addresses: Seq<Address>,
    /// Topics.
    pub topics: Seq<Option<Seq<B256>>>,
}

/// Accepted topics by place.
pub open spec fn topic_views(topics: Seq<Option<Vec<B256>>>) -> Seq<Option<Seq<B256>>> {
    Seq::new(
        topics.len(),
        |i: int|
            match topics[i] {
                Some(accepted) => Some(accepted@),
                None => None,
            },
    )
}

impl View for LogQuery {
    type V = QueryView;

    open spec fn view(&self) -> QueryView {
        QueryView {
            from: self.from,
            to: self.to,
            addresses: self.addresses@,
            topics: topic_views(self.topics@),
        }
    }
}

/// What log queries hold.
pub open spec fn query_views(queries: Seq<LogQuery>) -> Seq<QueryView> {
    Seq::new(queries.len(), |i: int| queries[i]@)
}

/// Addresses from index `from` on that are not indexed tokens.
pub open spec fn plain_addresses_from(
    addresses: Seq<Address>,
    indexed: Seq<(Address, OrderedSet<Address>)>,
    from: int,
    kept: Seq<Address>,
) -> Seq<Address>
    decreases addresses.len() - from,
{
    if from >= addresses.len() {
        kept
    } else {
        plain_addresses_from(
            addresses,
            indexed,
            from + 1,
            if value_of(indexed, addresses[from]) is Some {
                kept
            } else {
                kept.push(addresses[from])
            },
        )
    }
}

/// End of the address group that begins at `from`.
pub open spec fn group_end(from: int, length: int) -> int {
    if from + ADDRESS_GROUP_SIZE < length {
        from + ADDRESS_GROUP_SIZE
    } else {
        length
    }
}

/// Queries of the address groups from index `at` on, over one block range.
pub open spec fn group_queries_from(
    addresses: Seq<Address>,
    from: u64,
    to: u64,
    at: int,
    done: Seq<QueryView>,
) -> Seq<QueryView>
    decreases addresses.len() - at,
{
    if at >= addresses.len() {
        done
    } else {
        group_queries_from(
            addresses,
            from,
            to,
            group_end(at, addresses.len() as int),
            done.push(
                QueryView {
                    from,
                    to,
                    addresses: addresses.subrange(at, group_end(at, addresses.len() as int)),
                    topics: Seq::empty(),
                },
            ),
        )
    }
}

/// Account addresses as left-padded topics.
pub open spec fn account_topics(accounts: Seq<Address>) -> Seq<B256> {
    Seq::new(accounts.len(), |i: int| b256(accounts[i]@))
}

/// Transfers out of the accounts of a token.
pub open spec fn sender_query(
    from: u64,
    to: u64,
    token: Address,
    accounts: Seq<Address>,
) -> QueryView {
    QueryView {
        from,
        to,
        addresses: seq![token],
        topics: seq![Some(seq![transfer_topic()]), Some(account_topics(accounts))],
    }
}

/// Transfers into the accounts of a token.
pub open spec fn recipient_query(
    from: u64,
    to: u64,
    token: Address,
    accounts: Seq<Address>,
) -> QueryView {
    QueryView {
        from,
        to,
        addresses: seq![token],
        topics: seq![Some(seq![transfer_topic()]), None, Some(account_topics(accounts))],
    }
}

/// Queries of the indexed tokens from index `at` on, over one block range.
pub open spec fn token_queries_from(
    indexed: Seq<(Address, OrderedSet<Address>)>,
    from: u64,
    to: u64,
    at: int,
    done: Seq<QueryView>,
) -> Seq<QueryView>
    decreases indexed.len() - at,
{
    if at >= indexed.len() {
        done
    } else {
        token_queries_from(
            indexed,
            from,
            to,
            at + 1,
            if indexed[at].1@.len() == 0 {
                done
            } else {
                done.push(sender_query(from, to, indexed[at].0, indexed[at].1@)).push(
                    recipient_query(from, to, indexed[at].0, indexed[at].1@),
                )
            },
        )
    }
}

/// Last block of the range that begins at `from`.
pub open spec fn range_end(from: u64, latest: u64, maximum_log_range: u64) -> u64 {
    let end = clamped(from + clamped(maximum_log_range - 1));
    if end < latest {
        end
    } else {
        latest
    }
}

/// Queries of the block ranges from `from` through the latest block.
pub open spec fn range_queries_from(
    addresses: Seq<Address>,
    indexed: Seq<(Address, OrderedSet<Address>)>,
    maximum_log_range: u64,
    from: int,
    latest: u64,
    done: Seq<QueryView>,
) -> Seq<QueryView>
    decreases latest + 1 - from,
{
    if from < 0 || from > latest {
        done
    } else {
        let to = range_end(from as u64, latest, maximum_log_range);
        range_queries_from(
            addresses,
            indexed,
            maximum_log_range,
            to + 1,
            latest,
            token_queries_from(
                indexed,
                from as u64,
                to,
                0,
                group_queries_from(addresses, from as u64, to, 0, done),
            ),
        )
    }
}

/// Every log query of a latest-only catch-up, in order.
pub open spec fn catch_up_queries(
    watched: Seq<Address>,
    indexed: Seq<(Address, OrderedSet<Address>)>,
    maximum_log_range: u64,
    start: u64,
    latest: u64,
) -> Seq<QueryView> {
    range_queries_from(
        plain_addresses_from(watched, indexed, 0, Seq::empty()),
        indexed,
        maximum_log_range,
        start as int,
        latest,
        Seq::empty(),
    )
}

fn plain_addresses(
    watched: &OrderedSet<Address>,
    indexed: &OrderedMap<Address, OrderedSet<Address>>,
) -> (r: Vec<Address>)
    ensures
        r@ == plain_addresses_from(watched@, indexed@, 0, Seq::empty()),
{
    let mut kept: Vec<Address> = Vec::new();
    let mut i: usize = 0;
    while i < watched.len()
        invariant
            i <= watched@.len(),
            plain_addresses_from(watched@, indexed@, 0, Seq::empty()) == plain_addresses_from(
                watched@,
                indexed@,
                i as int,
                kept@,
            ),
        decreases watched@.len() - i,
    {
        let address = watched.at(i);
        if !indexed.contains_key(address) {
            kept.push(address);
        }
        i = i + 1;
    }
    kept
}

fn push_group_queries(addresses: &Vec<Address>, from: u64, to: u64, queries: &mut Vec<LogQuery>)
    ensures
        query_views(final(queries)@) == group_queries_from(
            addresses@,
            from,
            to,
            0,
            query_views(old(queries)@),
        ),
{
    let ghost goal = group_queries_from(addresses@, from, to, 0, query_views(queries@));
    let mut at: usize = 0;
    while at < addresses.len()
        invariant
            goal == group_queries_from(addresses@, from, to, at as int, query_views(queries@)),
        decreases addresses.len() - at,
    {
        let end: usize = if addresses.len() - at > ADDRESS_GROUP_SIZE {
            at + ADDRESS_GROUP_SIZE
        } else {
            addresses.len()
        };
        let mut group: Vec<Address> = Vec::new();
        let mut i: usize = at;
        while i < end
            invariant
                at <= i <= end,
                end <= addresses.len(),
                group@ == addresses@.subrange(at as int, i as int),
            decreases end - i,
        {
            group.push(addresses[i]);
            i = i + 1;
            assert(group@ =~= addresses@.subrange(at as int, i as int));
        }
        let query = LogQuery { from, to, addresses: group, topics: Vec::new() };
        assert(topic_views(query.topics@) =~= Seq::empty());
        let ghost held = query_views(queries@);
        let ghost added = query@;
        queries.push(query);
        assert(query_views(queries@) =~= held.push(added));
        assert(added.addresses =~= addresses@.subrange(
            at as int,
            group_end(at as int, addresses@.len() as int),
        ));
        at = end;
    }
}

fn accounts_as_topics(accounts: &OrderedSet<Address>) -> (r: Vec<B256>)
    ensures
        r@ == account_topics(accounts@),
{
    broadcast use {group_address, group_b256, group_u256};

    let mut topics: Vec<B256> = Vec::new();
    let mut i: usize = 0;
    while i < accounts.len()
        invariant
            i <= accounts@.len(),
            topics@ == account_topics(accounts@).subrange(0, i as int),
        decreases accounts@.len() - i,
    {
        broadcast use {group_address, group_b256, group_u256};

        let topic = B256::from_word(accounts.at(i).to_word());
        topics.push(topic);
        i = i + 1;
        assert(topics@ =~= account_topics(accounts@).subrange(0, i as int));
    }
    assert(topics@ =~= account_topics(accounts@));
    topics
}

fn push_token_queries(
    indexed: &OrderedMap<Address, OrderedSet<Address>>,
    from: u64,
    to: u64,
    queries: &mut Vec<LogQuery>,
)
    ensures
        query_views(final(queries)@) == token_queries_from(
            indexed@,
            from,
            to,
            0,
            query_views(old(queries)@),
        ),
{
    let ghost goal = token_queries_from(indexed@, from, to, 0, query_views(queries@));
    let mut at: usize = 0;
    while at < indexed.len()
        invariant
            at <= indexed@.len(),
            goal == token_queries_from(indexed@, from, to, at as int, query_views(queries@)),
        decreases indexed@.len() - at,
    {
        let entry = indexed.entry(at);
        if entry.1.len() > 0 {
            let ghost held = query_views(queries@);
            let signatures: Vec<B256> = vec![transfer_signature()];
            assert(signatures@ =~= seq![transfer_topic()]);
            let sender_topics: Vec<Option<Vec<B256>>> = vec![
                Some(signatures),
                Some(accounts_as_topics(&entry.1)),
            ];
            let tokens: Vec<Address> = vec![entry.0];
            assert(tokens@ =~= seq![entry.0]);
            let sender = LogQuery { from, to, addresses: tokens, topics: sender_topics };
            assert(sender@ =~= sender_query(from, to, entry.0, entry.1@)) by {
                assert(topic_views(sender.topics@) =~= seq![
                    Some(seq![transfer_topic()]),
                    Some(account_topics(entry.1@)),
                ]);
            }
            let ghost sent = sender@;
            queries.push(sender);
            assert(query_views(queries@) =~= held.push(sent));
            let signatures: Vec<B256> = vec![transfer_signature()];
            assert(signatures@ =~= seq![transfer_topic()]);
            let recipient_topics: Vec<Option<Vec<B256>>> = vec![
                Some(signatures),
                None,
                Some(accounts_as_topics(&entry.1)),
            ];
            let tokens: Vec<Address> = vec![entry.0];
            assert(tokens@ =~= seq![entry.0]);
            let recipient = LogQuery { from, to, addresses: tokens, topics: recipient_topics };
            assert(recipient@ =~= recipient_query(from, to, entry.0, entry.1@)) by {
                assert(topic_views(recipient.topics@) =~= seq![
                    Some(seq![transfer_topic()]),
                    None,
                    Some(account_topics(entry.1@)),
                ]);
            }
            let ghost received = recipient@;
            queries.push(recipient);
            assert(query_views(queries@) =~= held.push(sent).push(received));
        }
        at = at + 1;
    }
}

/// Plans every log query of a latest-only catch-up. A range that ends at the largest block number
/// has no successor to stop at.
pub fn plan_catch_up_queries(
    config: &ChainServiceConfig,
    indexed: &OrderedMap<Address, OrderedSet<Address>>,
    start: u64,
    latest: BlockRef,
) -> (r: Vec<LogQuery>)
    requires
        latest.number < u64::MAX,
    ensures
        query_views(r@) == catch_up_queries(
            config.watched_addresses@,
            indexed@,
            config.maximum_log_range,
            start,
            latest.number,
        ),
{
    let addresses = plain_addresses(&config.watched_addresses, indexed);
    let mut queries: Vec<LogQuery> = Vec::new();
    assert(query_views(queries@) =~= Seq::empty());
    let ghost goal = range_queries_from(
        addresses@,
        indexed@,
        config.maximum_log_range,
        start as int,
        latest.number,
        Seq::empty(),
    );
    let mut from: u64 = start;
    while from <= latest.number
        invariant
            latest.number < u64::MAX,
            goal == range_queries_from(
                addresses@,
                indexed@,
                config.maximum_log_range,
                from as int,
                latest.number,
                query_views(queries@),
            ),
        decreases latest.number + 1 - from,
    {
        let end: u64 = from.saturating_add(config.maximum_log_range.saturating_sub(1));
        let to: u64 = if end < latest.number {
            end
        } else {
            latest.number
        };
        push_group_queries(&addresses, from, to, &mut queries);
        push_token_queries(indexed, from, to, &mut queries);
        from = to + 1;
    }
    queries
}

/// Block number and record of a log that a range query returned, or why it is unusable.
pub open spec fn hint_outcome(
    chain_id: u64,
    watched: Seq<Address>,
    from: u64,
    to: u64,
    log: RpcLog,
) -> Result<(u64, LogView), ChainError> {
    let number = match log.block_number {
        Some(text) => quantity_value(text@),
        None => None,
    };
    if log.removed {
        Err(ChainError::InvalidBundle("latest-only range query returned a removed log"))
    } else if !has_key(watched, log.address) {
        Err(ChainError::InvalidBundle("latest-only range query returned an unwatched address"))
    } else if log.block_number is None {
        Err(ChainError::InvalidBundle("log has no block number"))
    } else if number is None {
        Err(ChainError::Provider(ProviderError::Quantity { field: "log.block_number" }))
    } else if log.block_hash is None {
        Err(ChainError::InvalidBundle("latest-only range log has no block hash"))
    } else if !(from <= number->0 <= to) {
        Err(
            ChainError::InvalidBundle(
                "latest-only range log is outside its requested canonical range",
            ),
        )
    } else {
        match standalone_outcome(
            chain_id,
            BlockRef {
                number: number->0,
                hash: log.block_hash->0,
                parent_hash: b256(0),
                timestamp: 0,
                gas_limit: 0,
            },
            log,
        ) {
            Ok(record) => Ok((number->0, record)),
            Err(error) => Err(error),
        }
    }
}

/// Converts a log of a range query for the deployment-aware filter, before its header is read.
/// Exact attribution is repeated against the real header before anything is persisted.
pub fn log_hint(config: &ChainServiceConfig, from: u64, to: u64, log: &RpcLog) -> (r: Result<
    (u64, CanonicalLogRecord),
    ChainError,
>)
    ensures
        match hint_outcome(config.chain_id, config.watched_addresses@, from, to, *log) {
            Ok((number, record)) => r is Ok && (r->Ok_0).0 == number && (r->Ok_0).1@ == record,
            Err(error) => r is Err && r->Err_0 == error,
        },
{
    broadcast use group_b256;

    if log.removed {
        return Err(ChainError::InvalidBundle("latest-only range query returned a removed log"));
    }
    if !config.watched_addresses.contains(log.address) {
        return Err(
            ChainError::InvalidBundle("latest-only range query returned an unwatched address"),
        );
    }
    let number: u64 = match &log.block_number {
        Some(text) => match parse_quantity("log.block_number", text.as_str()) {
            Ok(number) => number,
            Err(error) => return Err(ChainError::Provider(error)),
        },
        None => return Err(ChainError::InvalidBundle("log has no block number")),
    };
    let hash = log.block_hash.ok_or(
        ChainError::InvalidBundle("latest-only range log has no block hash"),
    )?;
    if !(from <= number && number <= to) {
        return Err(
            ChainError::InvalidBundle(
                "latest-only range log is outside its requested canonical range",
            ),
        );
    }
    let hint_block = BlockRef {
        number,
        hash,
        parent_hash: B256::zero(),
        timestamp: 0,
        gas_limit: 0,
    };
    let converted = validate_standalone_log(config.chain_id, hint_block, log)?;
    Ok((number, converted))
}

/// Refuses or converts a log that the per-block fallback query returned.
pub open spec fn queried_outcome(
    chain_id: u64,
    watched: Seq<Address>,
    block: BlockRef,
    log: RpcLog,
) -> Result<LogView, ChainError> {
    match standalone_outcome(chain_id, block, log) {
        Err(error) => Err(error),
        Ok(record) => if has_key(watched, record.address) {
            Ok(record)
        } else {
            Err(ChainError::InvalidBundle("fallback provider returned an unwatched address"))
        },
    }
}

/// Converts a log that the per-block fallback query returned; only watched addresses are accepted.
pub fn queried_log(config: &ChainServiceConfig, block: BlockRef, log: &RpcLog) -> (r: Result<
    CanonicalLogRecord,
    ChainError,
>)
    ensures
        yields(
            r,
            queried_outcome(config.chain_id, config.watched_addresses@, block, *log),
        ),
{
    let converted = validate_standalone_log(config.chain_id, block, log)?;
    if !config.watched_addresses.contains(converted.address) {
        return Err(ChainError::InvalidBundle("fallback provider returned an unwatched address"));
    }
    Ok(converted)
}

/// Whether a log stands behind another in transaction and log order.
pub open spec fn log_behind(log: LogView, other: LogView) -> bool {
    log.transaction_index > other.transaction_index || (log.transaction_index
        == other.transaction_index && log.log_index > other.log_index)
}

/// Number of leading logs from index `from` on that are not behind `log`.
pub open spec fn log_place_from(sorted: Seq<LogView>, log: LogView, from: int) -> int
    decreases sorted.len() - from,
{
    if from >= sorted.len() || log_behind(sorted[from], log) {
        from
    } else {
        log_place_from(sorted, log, from + 1)
    }
}

/// Logs of the first `count` in transaction and log order, equals in their given order.
pub open spec fn sorted_logs(logs: Seq<LogView>, count: int) -> Seq<LogView>
    decreases count,
{
    if count <= 0 {
        Seq::empty()
    } else {
        let sorted = sorted_logs(logs, count - 1);
        sorted.insert(log_place_from(sorted, logs[count - 1], 0), logs[count - 1])
    }
}

/// Orders logs by transaction and log index.
pub fn sort_logs(logs: &Vec<CanonicalLogRecord>) -> (r: Vec<CanonicalLogRecord>)
    ensures
        log_views(r@) == sorted_logs(log_views(logs@), logs@.len() as int),
{
    let ghost views = log_views(logs@);
    let mut sorted: Vec<CanonicalLogRecord> = Vec::new();
    assert(log_views(sorted@) =~= Seq::empty());
    let mut i: usize = 0;
    while i < logs.len()
        invariant
            i <= logs.len(),
            views == log_views(logs@),
            log_views(sorted@) == sorted_logs(views, i as int),
        decreases logs.len() - i,
    {
        let log = super::receipts::copy_log(&logs[i]);
        let ghost held = log_views(sorted@);
        let ghost added = log@;
        assert(added == views[i as int]);
        let mut place: usize = 0;
        while place < sorted.len() && !(sorted[place].transaction_index > log.transaction_index
            || (sorted[place].transaction_index == log.transaction_index
            && sorted[place].log_index > log.log_index))
            invariant
                place <= sorted.len(),
                held == log_views(sorted@),
                added == log@,
                log_place_from(held, added, 0) == log_place_from(held, added, place as int),
            decreases sorted.len() - place,
        {
            assert(held[place as int] == sorted@[place as int]@);
            place = place + 1;
        }
        if place < sorted.len() {
            assert(held[place as int] == sorted@[place as int]@);
        }
        sorted.insert(place, log);
        assert(log_views(sorted@) =~= held.insert(place as int, added));
        i = i + 1;
    }
    sorted
}

/// Whether no two logs share a block hash and log index.
pub open spec fn logs_distinct(logs: Seq<LogView>) -> bool {
    forall|i: int, j: int|
        0 <= i < j < logs.len() ==> !((#[trigger] logs[i]).block_hash == (
        #[trigger] logs[j]).block_hash && logs[i].log_index == logs[j].log_index)
}

/// Refuses logs that share a block hash and log index.
pub fn reject_duplicate_logs(logs: &Vec<CanonicalLogRecord>) -> (r: Result<(), ChainError>)
    ensures
        r == if logs_distinct(log_views(logs@)) {
            Ok(())
        } else {
            Err(ChainError::InvalidBundle("fallback query returned duplicate log"))
        },
{
    let ghost views = log_views(logs@);
    let mut j: usize = 0;
    while j < logs.len()
        invariant
            j <= logs.len(),
            views == log_views(logs@),
            forall|a: int, b: int|
                0 <= a < b < j ==> !((#[trigger] views[a]).block_hash == (
                #[trigger] views[b]).block_hash && views[a].log_index == views[b].log_index),
        decreases logs.len() - j,
    {
        let mut i: usize = 0;
        while i < j
            invariant
                i <= j,
                j < logs.len(),
                views == log_views(logs@),
                forall|a: int|
                    0 <= a < i ==> !((#[trigger] views[a]).block_hash
                        == views[j as int].block_hash && views[a].log_index
                        == views[j as int].log_index),
            decreases j - i,
        {
            if logs[i].block_hash == logs[j].block_hash && logs[i].log_index
                == logs[j].log_index {
                assert(views[i as int].block_hash == views[j as int].block_hash
                    && views[i as int].log_index == views[j as int].log_index);
                return Err(ChainError::InvalidBundle("fallback query returned duplicate log"));
            }
            i = i + 1;
        }
        j = j + 1;
    }
    Ok(())
}

/// Orders the retained logs of a block and refuses duplicates.
pub fn order_queried_logs(logs: &Vec<CanonicalLogRecord>) -> (r: Result<
    Vec<CanonicalLogRecord>,
    ChainError,
>)
    ensures
        ({
            let sorted = sorted_logs(log_views(logs@), logs@.len() as int);
            if logs_distinct(sorted) {
                r is Ok && log_views(r->Ok_0@) == sorted
            } else {
                r is Err && r->Err_0 == ChainError::InvalidBundle(
                    "fallback query returned duplicate log",
                )
            }
        }),
{
    let sorted = sort_logs(logs);
    reject_duplicate_logs(&sorted)?;
    Ok(sorted)
}

/// Distinct transaction hashes of the first `count` logs, in order.
pub open spec fn transactions_in(logs: Seq<LogView>, count: int) -> Seq<B256>
    decreases count,
{
    if count <= 0 {
        Seq::empty()
    } else {
        with_key(transactions_in(logs, count - 1), logs[count - 1].transaction_hash)
    }
}

/// Collects the transactions whose receipts a block's logs require.
pub fn transactions_of(logs: &Vec<CanonicalLogRecord>) -> (r: OrderedSet<B256>)
    ensures
        r@ == transactions_in(log_views(logs@), logs@.len() as int),
{
    let mut hashes: OrderedSet<B256> = OrderedSet::new();
    let mut i: usize = 0;
    while i < logs.len()
        invariant
            i <= logs.len(),
            hashes@ == transactions_in(log_views(logs@), i as int),
        decreases logs.len() - i,
    {
        let _added = hashes.insert(logs[i].transaction_hash);
        i = i + 1;
    }
    hashes
}

/// Receipts of the first `count` in transaction order.
pub open spec fn sorted_receipts(receipts: Seq<ReceiptView>, count: int) -> Seq<ReceiptView>
    decreases count,
{
    if count <= 0 {
        Seq::empty()
    } else {
        with_receipt(sorted_receipts(receipts, count - 1), receipts[count - 1])
    }
}

/// Whether no neighbours share a transaction index.
pub open spec fn neighbours_differ(receipts: Seq<ReceiptView>) -> bool {
    forall|i: int|
        0 < i < receipts.len() ==> receipts[i - 1].transaction_index != (
        #[trigger] receipts[i]).transaction_index
}

fn sort_receipts(receipts: Vec<ReceiptRecord>) -> (r: Vec<ReceiptRecord>)
    ensures
        receipt_views(r@) == sorted_receipts(receipt_views(receipts@), receipts@.len() as int),
{
    let ghost all = receipts@;
    let ghost views = receipt_views(receipts@);
    let mut rest: Vec<ReceiptRecord> = reversed(receipts);
    let mut sorted: Vec<ReceiptRecord> = Vec::new();
    assert(receipt_views(sorted@) =~= Seq::empty());
    while rest.len() > 0
        invariant
            rest@.len() <= all.len(),
            views == receipt_views(all),
            forall|i: int| 0 <= i < rest@.len() ==> rest@[i] == #[trigger] all[all.len() - 1 - i],
            receipt_views(sorted@) == sorted_receipts(views, all.len() - rest@.len()),
        decreases rest.len(),
    {
        let ghost done = all.len() - rest@.len();
        assert(rest@[rest@.len() - 1] == all[all.len() - 1 - (rest@.len() - 1)]);
        if let Some(receipt) = rest.pop() {
            assert(views[done] == receipt@);
            insert_receipt(&mut sorted, receipt);
        }
    }
    sorted
}

fn do_neighbours_differ(receipts: &Vec<ReceiptRecord>) -> (r: bool)
    ensures
        r == neighbours_differ(receipt_views(receipts@)),
{
    let ghost views = receipt_views(receipts@);
    let mut i: usize = 1;
    while i < receipts.len()
        invariant
            1 <= i,
            views == receipt_views(receipts@),
            forall|a: int|
                0 < a < i && a < views.len() ==> views[a - 1].transaction_index != (
                #[trigger] views[a]).transaction_index,
        decreases receipts.len() - i,
    {
        if receipts[i - 1].transaction_index == receipts[i].transaction_index {
            assert(views[i - 1].transaction_index == views[i as int].transaction_index);
            return false;
        }
        assert(views[i - 1].transaction_index != views[i as int].transaction_index);
        i = i + 1;
    }
    true
}

/// Orders fallback receipts by transaction index and refuses duplicates.
pub fn order_receipts(receipts: Vec<ReceiptRecord>) -> (r: Result<Vec<ReceiptRecord>, ChainError>)
    ensures
        ({
            let sorted = sorted_receipts(receipt_views(receipts@), receipts@.len() as int);
            if neighbours_differ(sorted) {
                r is Ok && receipt_views(r->Ok_0@) == sorted
            } else {
                r is Err && r->Err_0 == ChainError::InvalidBundle(
                    "fallback receipts contain duplicate transaction index",
                )
            }
        }),
{
    let sorted = sort_receipts(receipts);
    if !do_neighbours_differ(&sorted) {
        return Err(
            ChainError::InvalidBundle("fallback receipts contain duplicate transaction index"),
        );
    }
    Ok(sorted)
}

fn same_topics(left: &[Option<B256>; 4], right: &[Option<B256>; 4]) -> (r: bool)
    ensures
        r == (left@ == right@),
{
    let mut i: usize = 0;
    while i < 4
        invariant
            i <= 4,
            forall|j: int| 0 <= j < i ==> left@[j] == right@[j],
        decreases 4 - i,
    {
        let same = match (left[i], right[i]) {
            (Some(a), Some(b)) => a == b,
            (None, None) => true,
            _ => false,
        };
        if !same {
            return false;
        }
        i = i + 1;
    }
    assert(left@ =~= right@);
    true
}

fn same_log(left: &CanonicalLogRecord, right: &CanonicalLogRecord) -> (r: bool)
    ensures
        r == (left@ == right@),
{
    left.chain_id == right.chain_id && left.block_number == right.block_number && left.block_hash
        == right.block_hash && left.transaction_hash == right.transaction_hash
        && left.transaction_index == right.transaction_index && left.log_index == right.log_index
        && left.address == right.address && same_topics(&left.topics, &right.topics)
        && crate::domain::bytes_equal(&left.data, &right.data)
}

/// Compares the logs of a block's receipts, in order, with the logs that were queried.
pub fn match_bundle(
    receipt_logs: &Vec<CanonicalLogRecord>,
    queried: &Vec<CanonicalLogRecord>,
) -> (r: Result<(), ChainError>)
    ensures
        r == if sorted_logs(log_views(receipt_logs@), receipt_logs@.len() as int) == log_views(
            queried@,
        ) {
            Ok(())
        } else {
            Err(ChainError::ProviderViewInconsistent)
        },
{
    let sorted = sort_logs(receipt_logs);
    let ghost left = log_views(sorted@);
    let ghost right = log_views(queried@);
    if sorted.len() != queried.len() {
        assert(left.len() != right.len());
        return Err(ChainError::ProviderViewInconsistent);
    }
    let mut i: usize = 0;
    while i < sorted.len()
        invariant
            i <= sorted.len(),
            sorted.len() == queried.len(),
            left == log_views(sorted@),
            right == log_views(queried@),
            left == sorted_logs(log_views(receipt_logs@), receipt_logs@.len() as int),
            forall|j: int| 0 <= j < i ==> left[j] == right[j],
        decreases sorted.len() - i,
    {
        if !same_log(&sorted[i], &queried[i]) {
            assert(left[i as int] != right[i as int]);
            return Err(ChainError::ProviderViewInconsistent);
        }
        assert(left[i as int] == right[i as int]);
        i = i + 1;
    }
    assert(left =~= right);
    Ok(())
}

/// Whether a log query failure is transient.
pub open spec fn transient_log_failure(error: ProviderError) -> bool {
    match error {
        ProviderError::Transport { .. } => true,
        ProviderError::MalformedResponse { .. } => true,
        ProviderError::HttpStatus { status, .. } => status == 408 || status == 425 || status == 429
            || 500 <= status <= 599,
        _ => false,
    }
}

/// Returns whether a log query failure is transient.
pub fn retryable_log_query_error(error: &ProviderError) -> (r: bool)
    ensures
        r == transient_log_failure(*error),
{
    match error {
        ProviderError::Transport { .. } => true,
        ProviderError::MalformedResponse { .. } => true,
        ProviderError::HttpStatus { status, .. } => {
            *status == 408 || *status == 425 || *status == 429 || (500 <= *status && *status
                <= 599)
        },
        _ => false,
    }
}

/// Milliseconds to wait before the next attempt of a failed log query, or none where it is not
/// repeated.
pub fn log_retry_delay(attempt: u32, error: &ProviderError) -> (r: Option<u64>)
    ensures
        r == if attempt < MAX_LOG_QUERY_ATTEMPTS && transient_log_failure(*error) {
            Some((attempt * 250) as u64)
        } else {
            None
        },
{
    if attempt < MAX_LOG_QUERY_ATTEMPTS && retryable_log_query_error(error) {
        Some(attempt as u64 * 250)
    } else {
        None
    }
}

/// Outcome of the checkpoint's answer at the latest height.
pub open spec fn checkpoint_outcome(
    latest: BlockRef,
    candidate: Result<BlockRef, ProviderError>,
) -> Result<(), ChainError> {
    match candidate {
        Err(error) => Err(ChainError::Provider(error)),
        Ok(block) => if block.hash == latest.hash && block.parent_hash == latest.parent_hash {
            Ok(())
        } else {
            Err(ChainError::ProviderDisagreement { block_number: latest.number })
        },
    }
}

/// Judges the checkpoint's answer at the latest height; providers are trusted only where both report
/// the same block and parent.
pub fn judge_checkpoint(latest: BlockRef, candidate: Result<BlockRef, ProviderError>) -> (r: Result<
    (),
    ChainError,
>)
    ensures
        r == checkpoint_outcome(latest, candidate),
{
    match candidate {
        Err(error) => Err(ChainError::Provider(error)),
        Ok(block) => {
            if block.hash == latest.hash && block.parent_hash == latest.parent_hash {
                Ok(())
            } else {
                Err(ChainError::ProviderDisagreement { block_number: latest.number })
            }
        },
    }
}

} // verus!
