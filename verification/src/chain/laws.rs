//! What ingestion promises about blocks, queries and logs.

use vstd::prelude::*;

use crate::chain::heads::{
    catch_up_queries, checkpoint_outcome, extends, group_end, group_queries_from, hint_outcome,
    log_place_from, plain_addresses_from, poll_plan, range_end, range_queries_from, recent_start_of,
    recipient_query, sender_query, sorted_logs, token_queries_from, transient_log_failure, PollPlan,
    QueryView,
};
use crate::chain::logs::{
    every_address, has_kind, invalidations_of, origin_of, with_addresses, DecodedEvent, EventSource,
    FlowOrigin, MorphoEventKind, StateInvalidation, VaultEventKind, WatchedEventKind, WatchedView,
};
use crate::chain::provider::{
    envelope_outcome, quantity_value, ProviderError, RpcErrorCategory, RpcHeader, RpcLog,
};
use crate::chain::receipts::{standalone_outcome, LogView};
use crate::collections::{
    has_key_is_membership, strictly_increasing, value_of, with_key, with_key_is_insertion,
    OrderedSet,
};
use crate::domain::{BlockRef, CapId, MarketId, TokenAddress, VaultAddress};
use crate::primitives::{Address, B256};

verus! {

/// Whether a cursor stands under the latest header: directly below it the header names the cursor as
/// its parent, elsewhere the chain shows the cursor's hash at its height.
pub open spec fn stands_under(latest: BlockRef, cursor: BlockRef, observed: Option<B256>) -> bool {
    if latest.number < cursor.number {
        false
    } else if latest.number == cursor.number + 1 {
        latest.parent_hash == cursor.hash
    } else if latest.number == cursor.number {
        observed == Some(cursor.hash) && latest.hash == cursor.hash
    } else {
        observed == Some(cursor.hash)
    }
}

/// A poll rewinds exactly where the cursor does not stand under the latest header; else it is idle at
/// the cursor, publishes a distance of at most eight blocks, and only in the latest-only mode skips
/// through a longer one.
pub proof fn polls_rewind_exactly_off_the_chain(
    latest_only: bool,
    latest: BlockRef,
    cursor: BlockRef,
    observed: Option<B256>,
)
    requires
        cursor.number < u64::MAX,
    ensures
        ({
            let plan = poll_plan(latest_only, latest, cursor, observed);
            let ahead = latest.number - cursor.number;
            &&& plan == PollPlan::Rewind <==> !stands_under(latest, cursor, observed)
            &&& stands_under(latest, cursor, observed) ==> {
                if ahead == 0 {
                    plan == PollPlan::Idle
                } else if latest_only && ahead > 8 {
                    plan == PollPlan::LatestOnly { start: (cursor.number + 1) as u64 }
                } else {
                    plan == PollPlan::CatchUp {
                        start: (cursor.number + 1) as u64,
                        publish: ahead <= 8,
                    }
                }
            }
        }),
{
}

/// The recent window ends at the latest block and holds as many blocks as are rescanned, or, where
/// fewer are scanned, all of them.
pub proof fn recent_window_holds_the_rescan(start: u64, latest: u64, reorg_rescan_blocks: u64)
    requires
        start <= latest,
        0 < reorg_rescan_blocks <= latest,
    ensures
        ({
            let first = recent_start_of(start, latest, reorg_rescan_blocks);
            &&& start <= first <= latest
            &&& first > start ==> latest - first + 1 == reorg_rescan_blocks
            &&& first == start ==> latest - start + 1 <= reorg_rescan_blocks
        }),
{
}

/// A block extends another exactly where it names it as its parent one height above.
pub proof fn extension_links_height_and_parent(parent: BlockRef, block: BlockRef)
    requires
        parent.number < u64::MAX,
    ensures
        extends(Some(parent), block) <==> block.number == parent.number + 1 && block.parent_hash
            == parent.hash,
{
}

/// Two providers agree exactly where both show the same block on the same parent.
pub proof fn checkpoint_accepts_only_the_same_block(
    latest: BlockRef,
    candidate: Result<BlockRef, ProviderError>,
)
    ensures
        checkpoint_outcome(latest, candidate) is Ok <==> candidate is Ok && candidate->Ok_0.hash
            == latest.hash && candidate->Ok_0.parent_hash == latest.parent_hash,
{
}

/// Whether a query is one of the queries.
pub open spec fn asked(queries: Seq<QueryView>, query: QueryView) -> bool {
    exists|i: int| 0 <= i < queries.len() && #[trigger] queries[i] == query
}

/// Whether some query of a block range asks for every log of an address.
pub open spec fn asks_for_address(
    queries: Seq<QueryView>,
    from: u64,
    to: u64,
    address: Address,
) -> bool {
    exists|i: int|
        0 <= i < queries.len() && (#[trigger] queries[i]).from == from && queries[i].to == to
            && queries[i].addresses.contains(address) && queries[i].topics.len() == 0
}

proof fn lemma_group_queries(
    addresses: Seq<Address>,
    from: u64,
    to: u64,
    at: int,
    done: Seq<QueryView>,
)
    requires
        0 <= at <= addresses.len(),
    ensures
        ({
            let all = group_queries_from(addresses, from, to, at, done);
            &&& all.len() >= done.len()
            &&& forall|i: int| 0 <= i < done.len() ==> #[trigger] all[i] == done[i]
            &&& forall|i: int|
                done.len() <= i < all.len() ==> (#[trigger] all[i]).from == from && all[i].to == to
                    && all[i].addresses.len() <= 64
            &&& forall|k: int|
                at <= k < addresses.len() ==> asks_for_address(
                    all,
                    from,
                    to,
                    #[trigger] addresses[k],
                )
        }),
    decreases addresses.len() - at,
{
    if at < addresses.len() {
        let end = group_end(at, addresses.len() as int);
        let query = QueryView {
            from,
            to,
            addresses: addresses.subrange(at, end),
            topics: Seq::empty(),
        };
        let next = done.push(query);
        lemma_group_queries(addresses, from, to, end, next);
        let all = group_queries_from(addresses, from, to, at, done);
        assert(all[done.len() as int] == next[done.len() as int]);
        assert forall|i: int| 0 <= i < done.len() implies #[trigger] all[i] == done[i] by {
            assert(all[i] == next[i]);
        }
        assert forall|k: int| at <= k < addresses.len() implies asks_for_address(
            all,
            from,
            to,
            #[trigger] addresses[k],
        ) by {
            if k < end {
                assert(query.addresses[k - at] == addresses[k]);
                assert(all[done.len() as int].addresses.contains(addresses[k]));
            }
        }
    }
}

proof fn lemma_token_queries(
    indexed: Seq<(Address, OrderedSet<Address>)>,
    from: u64,
    to: u64,
    at: int,
    done: Seq<QueryView>,
)
    requires
        0 <= at <= indexed.len(),
    ensures
        ({
            let all = token_queries_from(indexed, from, to, at, done);
            &&& all.len() >= done.len()
            &&& forall|i: int| 0 <= i < done.len() ==> #[trigger] all[i] == done[i]
            &&& forall|i: int|
                done.len() <= i < all.len() ==> (#[trigger] all[i]).from == from && all[i].to == to
                    && all[i].addresses.len() <= 64
            &&& forall|k: int|
                at <= k < indexed.len() && (#[trigger] indexed[k]).1@.len() > 0 ==> asked(
                    all,
                    sender_query(from, to, indexed[k].0, indexed[k].1@),
                ) && asked(all, recipient_query(from, to, indexed[k].0, indexed[k].1@))
        }),
    decreases indexed.len() - at,
{
    if at < indexed.len() {
        let outward = sender_query(from, to, indexed[at].0, indexed[at].1@);
        let inward = recipient_query(from, to, indexed[at].0, indexed[at].1@);
        let next = if indexed[at].1@.len() == 0 {
            done
        } else {
            done.push(outward).push(inward)
        };
        lemma_token_queries(indexed, from, to, at + 1, next);
        let all = token_queries_from(indexed, from, to, at, done);
        assert forall|i: int| 0 <= i < done.len() implies #[trigger] all[i] == done[i] by {
            assert(all[i] == next[i]);
        }
        if indexed[at].1@.len() > 0 {
            assert(all[done.len() as int] == next[done.len() as int]);
            assert(all[done.len() as int + 1] == next[done.len() as int + 1]);
        }
    }
}

/// Whether the queries ask, over a range that holds the block, for every log of each address and for
/// the transfers into and out of the accounts of each indexed token.
pub open spec fn asks_about(
    queries: Seq<QueryView>,
    addresses: Seq<Address>,
    indexed: Seq<(Address, OrderedSet<Address>)>,
    number: int,
    from: u64,
    to: u64,
) -> bool {
    &&& from <= number <= to
    &&& forall|k: int|
        0 <= k < addresses.len() ==> asks_for_address(queries, from, to, #[trigger] addresses[k])
    &&& forall|k: int|
        0 <= k < indexed.len() && (#[trigger] indexed[k]).1@.len() > 0 ==> asked(
            queries,
            sender_query(from, to, indexed[k].0, indexed[k].1@),
        ) && asked(queries, recipient_query(from, to, indexed[k].0, indexed[k].1@))
}

/// Whether a query stays within the scan, the range limit and the address limit.
pub open spec fn query_within(
    query: QueryView,
    start: int,
    latest: u64,
    maximum_log_range: u64,
) -> bool {
    &&& start <= query.from <= query.to <= latest
    &&& query.to - query.from < maximum_log_range || maximum_log_range == 0 && query.to
        == query.from
    &&& query.addresses.len() <= 64
}

proof fn lemma_asks_more(
    fewer: Seq<QueryView>,
    more: Seq<QueryView>,
    addresses: Seq<Address>,
    indexed: Seq<(Address, OrderedSet<Address>)>,
    number: int,
    from: u64,
    to: u64,
)
    requires
        asks_about(fewer, addresses, indexed, number, from, to),
        fewer.len() <= more.len(),
        forall|i: int| 0 <= i < fewer.len() ==> #[trigger] more[i] == fewer[i],
    ensures
        asks_about(more, addresses, indexed, number, from, to),
{
    assert forall|k: int| 0 <= k < addresses.len() implies asks_for_address(
        more,
        from,
        to,
        #[trigger] addresses[k],
    ) by {
        assert(asks_for_address(fewer, from, to, addresses[k]));
        let i = choose|i: int|
            0 <= i < fewer.len() && (#[trigger] fewer[i]).from == from && fewer[i].to == to
                && fewer[i].addresses.contains(addresses[k]) && fewer[i].topics.len() == 0;
        assert(more[i] == fewer[i]);
    }
    assert forall|k: int| 0 <= k < indexed.len() && (#[trigger] indexed[k]).1@.len() > 0 implies asked(
        more,
        sender_query(from, to, indexed[k].0, indexed[k].1@),
    ) && asked(more, recipient_query(from, to, indexed[k].0, indexed[k].1@)) by {
        let outward = sender_query(from, to, indexed[k].0, indexed[k].1@);
        let inward = recipient_query(from, to, indexed[k].0, indexed[k].1@);
        assert(asked(fewer, outward) && asked(fewer, inward));
        let i = choose|i: int| 0 <= i < fewer.len() && #[trigger] fewer[i] == outward;
        let j = choose|j: int| 0 <= j < fewer.len() && #[trigger] fewer[j] == inward;
        assert(more[i] == outward && more[j] == inward);
    }
}

proof fn lemma_range_queries(
    addresses: Seq<Address>,
    indexed: Seq<(Address, OrderedSet<Address>)>,
    maximum_log_range: u64,
    from: int,
    latest: u64,
    done: Seq<QueryView>,
    start: int,
    number: int,
)
    requires
        0 <= start <= from <= latest + 1,
        forall|i: int|
            0 <= i < done.len() ==> query_within(
                #[trigger] done[i],
                start,
                latest,
                maximum_log_range,
            ),
    ensures
        ({
            let all = range_queries_from(
                addresses,
                indexed,
                maximum_log_range,
                from,
                latest,
                done,
            );
            &&& all.len() >= done.len()
            &&& forall|i: int| 0 <= i < done.len() ==> #[trigger] all[i] == done[i]
            &&& forall|i: int|
                0 <= i < all.len() ==> query_within(
                    #[trigger] all[i],
                    start,
                    latest,
                    maximum_log_range,
                )
            &&& from <= number <= latest ==> exists|f: u64, t: u64| #[trigger]
                asks_about(all, addresses, indexed, number, f, t)
        }),
    decreases latest + 1 - from,
{
    if from <= latest {
        let first = from as u64;
        let to = range_end(first, latest, maximum_log_range);
        let grouped = group_queries_from(addresses, first, to, 0, done);
        let next = token_queries_from(indexed, first, to, 0, grouped);
        lemma_group_queries(addresses, first, to, 0, done);
        lemma_token_queries(indexed, first, to, 0, grouped);
        assert forall|i: int| 0 <= i < next.len() implies query_within(
            #[trigger] next[i],
            start,
            latest,
            maximum_log_range,
        ) by {
            if i < grouped.len() {
                assert(next[i] == grouped[i]);
                if i < done.len() {
                    assert(grouped[i] == done[i]);
                }
            }
        }
        lemma_range_queries(
            addresses,
            indexed,
            maximum_log_range,
            to + 1,
            latest,
            next,
            start,
            number,
        );
        let all = range_queries_from(addresses, indexed, maximum_log_range, from, latest, done);
        assert forall|i: int| 0 <= i < done.len() implies #[trigger] all[i] == done[i] by {
            assert(next[i] == grouped[i]);
            assert(grouped[i] == done[i]);
            assert(all[i] == next[i]);
        }
        if from <= number <= to {
            assert forall|k: int| 0 <= k < addresses.len() implies asks_for_address(
                next,
                first,
                to,
                #[trigger] addresses[k],
            ) by {
                assert(asks_for_address(grouped, first, to, addresses[k]));
                let i = choose|i: int|
                    0 <= i < grouped.len() && (#[trigger] grouped[i]).from == first
                        && grouped[i].to == to && grouped[i].addresses.contains(addresses[k])
                        && grouped[i].topics.len() == 0;
                assert(next[i] == grouped[i]);
            }
            assert(asks_about(next, addresses, indexed, number, first, to));
            lemma_asks_more(next, all, addresses, indexed, number, first, to);
        }
    }
}

proof fn lemma_plain_addresses(
    addresses: Seq<Address>,
    indexed: Seq<(Address, OrderedSet<Address>)>,
    from: int,
    kept: Seq<Address>,
)
    requires
        0 <= from <= addresses.len(),
    ensures
        ({
            let all = plain_addresses_from(addresses, indexed, from, kept);
            &&& forall|k: int| 0 <= k < kept.len() ==> all.contains(#[trigger] kept[k])
            &&& forall|k: int|
                from <= k < addresses.len() && value_of(indexed, #[trigger] addresses[k]) is None
                    ==> all.contains(addresses[k])
        }),
    decreases addresses.len() - from,
{
    if from < addresses.len() {
        let next = if value_of(indexed, addresses[from]) is Some {
            kept
        } else {
            kept.push(addresses[from])
        };
        lemma_plain_addresses(addresses, indexed, from + 1, next);
        let all = plain_addresses_from(addresses, indexed, from, kept);
        assert forall|k: int| 0 <= k < kept.len() implies all.contains(#[trigger] kept[k]) by {
            assert(next[k] == kept[k]);
        }
        if value_of(indexed, addresses[from]) is None {
            assert(next[kept.len() as int] == addresses[from]);
        }
    }
}

/// Whether some query over a range that holds the block asks for every log of the address.
pub open spec fn covers_address(queries: Seq<QueryView>, number: int, address: Address) -> bool {
    exists|i: int|
        0 <= i < queries.len() && (#[trigger] queries[i]).from <= number <= queries[i].to
            && queries[i].addresses.contains(address) && queries[i].topics.len() == 0
}

/// A catch-up asks about every block of its range: for every log of each watched address that is no
/// indexed token, and for the transfers out of and into the accounts of each indexed token. No query
/// leaves the range or exceeds the limits on blocks and addresses.
pub proof fn catch_up_queries_leave_no_gap(
    watched: Seq<Address>,
    indexed: Seq<(Address, OrderedSet<Address>)>,
    maximum_log_range: u64,
    start: u64,
    latest: u64,
    number: int,
)
    requires
        start <= number <= latest,
    ensures
        ({
            let queries = catch_up_queries(watched, indexed, maximum_log_range, start, latest);
            &&& forall|i: int|
                0 <= i < queries.len() ==> query_within(
                    #[trigger] queries[i],
                    start as int,
                    latest,
                    maximum_log_range,
                )
            &&& forall|k: int|
                0 <= k < watched.len() && value_of(indexed, #[trigger] watched[k]) is None
                    ==> covers_address(queries, number, watched[k])
            &&& exists|f: u64, t: u64|
                f <= number <= t && #[trigger] asks_about(
                    queries,
                    Seq::empty(),
                    indexed,
                    number,
                    f,
                    t,
                )
        }),
{
    let plain = plain_addresses_from(watched, indexed, 0, Seq::empty());
    let queries = catch_up_queries(watched, indexed, maximum_log_range, start, latest);
    lemma_plain_addresses(watched, indexed, 0, Seq::empty());
    lemma_range_queries(
        plain,
        indexed,
        maximum_log_range,
        start as int,
        latest,
        Seq::empty(),
        start as int,
        number,
    );
    let (f, t) = choose|f: u64, t: u64| #[trigger]
        asks_about(queries, plain, indexed, number, f, t);
    assert(asks_about(queries, Seq::empty(), indexed, number, f, t));
    assert forall|k: int|
        0 <= k < watched.len() && value_of(indexed, #[trigger] watched[k]) is None implies
        covers_address(queries, number, watched[k]) by {
        let p = choose|p: int| 0 <= p < plain.len() && plain[p] == watched[k];
        assert(asks_for_address(queries, f, t, plain[p]));
    }
}

/// Whether a log comes no later than another within their block.
pub open spec fn log_no_later(left: LogView, right: LogView) -> bool {
    left.transaction_index < right.transaction_index || left.transaction_index
        == right.transaction_index && left.log_index <= right.log_index
}

proof fn lemma_log_place(sorted: Seq<LogView>, log: LogView, from: int)
    requires
        0 <= from <= sorted.len(),
    ensures
        ({
            let at = log_place_from(sorted, log, from);
            &&& from <= at <= sorted.len()
            &&& forall|i: int| from <= i < at ==> log_no_later(#[trigger] sorted[i], log)
            &&& at < sorted.len() ==> !log_no_later(sorted[at], log)
        }),
    decreases sorted.len() - from,
{
    if from < sorted.len() && log_no_later(sorted[from], log) {
        lemma_log_place(sorted, log, from + 1);
    }
}

/// Sorted logs are the given logs, each once, in transaction and log order.
pub proof fn sorted_logs_are_in_order(logs: Seq<LogView>, count: int)
    requires
        0 <= count <= logs.len(),
    ensures
        sorted_logs(logs, count).len() == count,
        sorted_logs(logs, count).to_multiset() == logs.take(count).to_multiset(),
        forall|i: int, j: int|
            0 <= i < j < count ==> log_no_later(
                #[trigger] sorted_logs(logs, count)[i],
                #[trigger] sorted_logs(logs, count)[j],
            ),
    decreases count,
{
    broadcast use vstd::seq_lib::group_to_multiset_ensures;

    if count > 0 {
        sorted_logs_are_in_order(logs, count - 1);
        let sorted = sorted_logs(logs, count - 1);
        let log = logs[count - 1];
        let at = log_place_from(sorted, log, 0);
        lemma_log_place(sorted, log, 0);
        let next = sorted.insert(at, log);
        assert(logs.take(count) =~= logs.take(count - 1).push(log));
        vstd::seq_lib::to_multiset_insert(sorted, at, log);
        assert(next.to_multiset() =~= logs.take(count).to_multiset());
        assert forall|i: int, j: int| 0 <= i < j < count implies log_no_later(
            #[trigger] next[i],
            #[trigger] next[j],
        ) by {
            if j == at {
                assert(next[i] == sorted[i]);
            } else if i == at {
                assert(next[j] == sorted[j - 1]);
                if j - 1 > at {
                    assert(log_no_later(sorted[at], sorted[j - 1]));
                }
            } else {
                let a = if i < at {
                    i
                } else {
                    i - 1
                };
                let b = if j < at {
                    j
                } else {
                    j - 1
                };
                assert(next[i] == sorted[a] && next[j] == sorted[b]);
            }
        }
    } else {
        assert(logs.take(0) =~= Seq::<LogView>::empty());
    }
}

/// A query is repeated after a lost connection, an unreadable answer, a timeout, an early or throttled
/// request or a server fault, and never after an answer that the provider stands by.
pub proof fn only_transient_failures_are_repeated(error: ProviderError)
    ensures
        error is Transport || error is MalformedResponse ==> transient_log_failure(error),
        error is HttpStatus ==> (transient_log_failure(error) <==> error->HttpStatus_status == 408
            || error->HttpStatus_status == 425 || error->HttpStatus_status == 429 || (500
            <= error->HttpStatus_status <= 599)),
        error is ChainMismatch || error is MissingRole || error is Quantity
            ==> !transient_log_failure(error),
{
}

/// A log of a range or block query is accepted exactly where it is not removed, has a transaction and
/// a place, and names the very block; what is recorded is what it says.
pub proof fn accepted_logs_name_their_block(chain_id: u64, block: BlockRef, log: RpcLog)
    ensures
        ({
            let outcome = standalone_outcome(chain_id, block, log);
            let record = outcome->Ok_0;
            &&& outcome is Ok <==> {
                &&& !log.removed
                &&& log.block_number is Some && quantity_value(log.block_number->Some_0@) == Some(
                    block.number,
                )
                &&& log.block_hash == Some(block.hash)
                &&& log.transaction_hash is Some
                &&& log.transaction_index is Some && quantity_value(
                    log.transaction_index->Some_0@,
                ) is Some
                &&& log.log_index is Some && quantity_value(log.log_index->Some_0@) is Some
                &&& log.topics@.len() <= 4
            }
            &&& outcome is Ok ==> {
                &&& record.chain_id == chain_id
                &&& record.block_number == block.number && record.block_hash == block.hash
                &&& Some(record.transaction_hash) == log.transaction_hash
                &&& Some(record.transaction_index) == quantity_value(
                    log.transaction_index->Some_0@,
                )
                &&& Some(record.log_index) == quantity_value(log.log_index->Some_0@)
                &&& record.address == log.address
                &&& record.data == log.data@
                &&& record.topics.len() == 4
                &&& forall|i: int|
                    0 <= i < 4 ==> (#[trigger] record.topics[i]) == (if i < log.topics@.len() {
                        Some(log.topics@[i])
                    } else {
                        None
                    })
            }
        }),
{
}

/// A log hint is accepted only from a watched address and within the asked range.
pub proof fn accepted_hints_are_watched_and_in_range(
    chain_id: u64,
    watched: Seq<Address>,
    from: u64,
    to: u64,
    log: RpcLog,
)
    requires
        strictly_increasing(watched),
        hint_outcome(chain_id, watched, from, to, log) is Ok,
    ensures
        ({
            let (number, record) = hint_outcome(chain_id, watched, from, to, log)->Ok_0;
            &&& watched.contains(log.address)
            &&& from <= number <= to
            &&& record.block_number == number
            &&& record.address == log.address
            &&& Some(record.block_hash) == log.block_hash
            &&& !log.removed
        }),
{
    has_key_is_membership(watched, log.address);
}

/// Whether a transaction holds an event of the vault kind.
pub open spec fn shows(events: Seq<DecodedEvent>, kind: VaultEventKind) -> bool {
    exists|i: int|
        0 <= i < events.len() && (#[trigger] events[i]).kind == WatchedEventKind::Vault(kind)
}

/// A known transaction is the bot's own whatever it holds; else a deposit, a withdrawal, a forced
/// deallocation, an allocator's action, a liquidation and any other market event attribute it, in
/// that order, and an allocator is approved exactly where its sender is.
pub proof fn transactions_are_attributed_by_their_strongest_event(
    sender: Address,
    known_bot_transaction: bool,
    approved_allocators: Seq<Address>,
    events: Seq<DecodedEvent>,
)
    requires
        strictly_increasing(approved_allocators),
    ensures
        ({
            let origin = origin_of(sender, known_bot_transaction, approved_allocators, events);
            let by_users = shows(events, VaultEventKind::Deposit) || shows(
                events,
                VaultEventKind::Withdraw,
            ) || shows(events, VaultEventKind::ForceDeallocate);
            let by_allocator = shows(events, VaultEventKind::Allocate) || shows(
                events,
                VaultEventKind::Deallocate,
            );
            &&& origin == FlowOrigin::BotRebalance <==> known_bot_transaction
            &&& origin == FlowOrigin::VaultUserDeposit <==> !known_bot_transaction && shows(
                events,
                VaultEventKind::Deposit,
            )
            &&& origin == FlowOrigin::VaultUserWithdrawal <==> !known_bot_transaction && !shows(
                events,
                VaultEventKind::Deposit,
            ) && shows(events, VaultEventKind::Withdraw)
            &&& origin == FlowOrigin::VaultUserForceDeallocate <==> !known_bot_transaction
                && !shows(events, VaultEventKind::Deposit) && !shows(
                events,
                VaultEventKind::Withdraw,
            ) && shows(events, VaultEventKind::ForceDeallocate)
            &&& origin == FlowOrigin::ApprovedExternalAllocator <==> !known_bot_transaction
                && !by_users && by_allocator && approved_allocators.contains(sender)
            &&& origin == FlowOrigin::UnknownExternalAllocator <==> !known_bot_transaction
                && !by_users && by_allocator && !approved_allocators.contains(sender)
            &&& origin == FlowOrigin::LiquidationOrBadDebt ==> exists|i: int|
                0 <= i < events.len() && (#[trigger] events[i]).kind == WatchedEventKind::Morpho(
                    MorphoEventKind::Liquidate,
                )
            &&& !known_bot_transaction && !by_users && !by_allocator && origin
                != FlowOrigin::LiquidationOrBadDebt ==> (origin == FlowOrigin::MorphoExternalUser
                <==> exists|i: int| 0 <= i < events.len() && (#[trigger] events[i]).kind is Morpho)
        }),
{
    has_key_is_membership(approved_allocators, sender);
    assert forall|kind: VaultEventKind| #[trigger] shows(events, kind) == has_kind(
        events,
        WatchedEventKind::Vault(kind),
    ) by {
        if has_kind(events, WatchedEventKind::Vault(kind)) {
            let i = choose|i: int|
                0 <= i < events.len() && (#[trigger] events[i]).kind == WatchedEventKind::Vault(
                    kind,
                );
            assert(events[i].kind == WatchedEventKind::Vault(kind));
        }
    }
}

/// A cap event invalidates exactly the cap it names, first indexed where a cap grows and second where
/// one shrinks; a market or rate event exactly its market; a transfer exactly its token.
pub proof fn events_invalidate_what_they_name(
    vault: VaultAddress,
    token: TokenAddress,
    morpho: Address,
    topics: Seq<B256>,
    kind: MorphoEventKind,
)
    requires
        topics.len() >= 3,
    ensures
        invalidations_of(
            EventSource::Vault(vault),
            WatchedEventKind::Vault(VaultEventKind::IncreaseAbsoluteCap),
            topics,
        ) == seq![StateInvalidation::CapState { vault, cap: CapId(topics[1]) }],
        invalidations_of(
            EventSource::Vault(vault),
            WatchedEventKind::Vault(VaultEventKind::IncreaseRelativeCap),
            topics,
        ) == seq![StateInvalidation::CapState { vault, cap: CapId(topics[1]) }],
        invalidations_of(
            EventSource::Vault(vault),
            WatchedEventKind::Vault(VaultEventKind::DecreaseAbsoluteCap),
            topics,
        ) == seq![StateInvalidation::CapState { vault, cap: CapId(topics[2]) }],
        invalidations_of(
            EventSource::Vault(vault),
            WatchedEventKind::Vault(VaultEventKind::DecreaseRelativeCap),
            topics,
        ) == seq![StateInvalidation::CapState { vault, cap: CapId(topics[2]) }],
        invalidations_of(
            EventSource::Morpho(morpho),
            WatchedEventKind::Morpho(kind),
            topics,
        ) == seq![StateInvalidation::MarketState(MarketId(topics[1]))],
        invalidations_of(
            EventSource::AdaptiveCurveIrm(morpho),
            WatchedEventKind::BorrowRateUpdate,
            topics,
        ) == seq![StateInvalidation::MarketState(MarketId(topics[1]))],
        invalidations_of(EventSource::Token(token), WatchedEventKind::Transfer, topics) == seq![
            StateInvalidation::TokenLiquidity(token),
        ],
{
}

proof fn lemma_with_addresses(set: Seq<Address>, list: Seq<Address>, count: int, address: Address)
    requires
        strictly_increasing(set),
        0 <= count <= list.len(),
    ensures
        strictly_increasing(with_addresses(set, list, count)),
        with_addresses(set, list, count).contains(address) <==> set.contains(address)
            || list.take(count).contains(address),
    decreases count,
{
    if count > 0 {
        lemma_with_addresses(set, list, count - 1, address);
        let held = with_addresses(set, list, count - 1);
        let added = list[count - 1];
        let next = with_key(held, added);
        with_key_is_insertion(held, added);
        assert(next.contains(address) == (held.contains(address) || address == added)) by {
            assert(next.to_set().contains(address) == held.to_set().insert(added).contains(
                address,
            ));
        }
        assert(list.take(count) =~= list.take(count - 1).push(added));
        let before = list.take(count - 1);
        let after = list.take(count);
        if before.contains(address) {
            let i = choose|i: int| 0 <= i < before.len() && before[i] == address;
            assert(after[i] == address);
        }
        assert(after[count - 1] == added);
        if after.contains(address) {
            let i = choose|i: int| 0 <= i < after.len() && after[i] == address;
            if i < count - 1 {
                assert(before[i] == address);
            }
        }
    } else {
        assert(list.take(0) =~= Seq::<Address>::empty());
    }
}

proof fn lemma_union(set: Seq<Address>, list: Seq<Address>, address: Address)
    requires
        strictly_increasing(set),
    ensures
        ({
            let all = with_addresses(set, list, list.len() as int);
            strictly_increasing(all) && (all.contains(address) <==> set.contains(address)
                || list.contains(address))
        }),
{
    lemma_with_addresses(set, list, list.len() as int, address);
    assert(list.take(list.len() as int) =~= list);
}

/// An address is watched exactly where some category holds it.
pub proof fn every_category_is_watched(watched: WatchedView, address: Address)
    ensures
        every_address(watched).contains(address) <==> watched.vaults.contains(address)
            || watched.adapters.contains(address) || watched.morpho.contains(address)
            || watched.irms.contains(address) || watched.tokens.contains(address)
            || watched.gates.contains(address) || watched.registries.contains(address)
            || watched.signers.contains(address) || watched.role_accounts.contains(address),
        strictly_increasing(every_address(watched)),
{
    let a = with_addresses(Seq::empty(), watched.vaults, watched.vaults.len() as int);
    let b = with_addresses(a, watched.adapters, watched.adapters.len() as int);
    let c = with_addresses(b, watched.morpho, watched.morpho.len() as int);
    let d = with_addresses(c, watched.irms, watched.irms.len() as int);
    let e = with_addresses(d, watched.tokens, watched.tokens.len() as int);
    let f = with_addresses(e, watched.gates, watched.gates.len() as int);
    let g = with_addresses(f, watched.registries, watched.registries.len() as int);
    let h = with_addresses(g, watched.signers, watched.signers.len() as int);
    lemma_union(Seq::empty(), watched.vaults, address);
    lemma_union(a, watched.adapters, address);
    lemma_union(b, watched.morpho, address);
    lemma_union(c, watched.irms, address);
    lemma_union(d, watched.tokens, address);
    lemma_union(e, watched.gates, address);
    lemma_union(f, watched.registries, address);
    lemma_union(g, watched.signers, address);
    lemma_union(h, watched.role_accounts, address);
}

/// A header denotes a block exactly where its three quantities are well formed, and then that block.
pub proof fn headers_denote_what_they_say(header: RpcHeader)
    ensures
        ({
            let denoted = header.denoted();
            &&& denoted is Ok <==> quantity_value(header.number@) is Some && quantity_value(
                header.timestamp@,
            ) is Some && quantity_value(header.gas_limit@) is Some
            &&& denoted is Ok ==> {
                &&& Some(denoted->Ok_0.number) == quantity_value(header.number@)
                &&& Some(denoted->Ok_0.timestamp) == quantity_value(header.timestamp@)
                &&& Some(denoted->Ok_0.gas_limit) == quantity_value(header.gas_limit@)
                &&& denoted->Ok_0.hash == header.hash
                &&& denoted->Ok_0.parent_hash == header.parent_hash
            }
        }),
{
}

/// An answer is read exactly where it is of the protocol version, answers the request and carries no
/// error; a wrong version or request is never read as an error of the method.
pub proof fn envelopes_answer_their_request(
    method: &'static str,
    id: u64,
    version: Seq<char>,
    returned_id: u64,
    error: Option<(i64, RpcErrorCategory)>,
)
    ensures
        ({
            let outcome = envelope_outcome(method, id, version, returned_id, error);
            let answers = version == "2.0"@ && returned_id == id;
            &&& outcome is Ok <==> answers && error is None
            &&& outcome is Err && outcome->Err_0 is MalformedResponse <==> !answers
            &&& outcome is Err && outcome->Err_0 is MethodUnsupported <==> answers && match error {
                Some((code, _)) => code == -32_601,
                None => false,
            }
        }),
{
}

} // verus!
