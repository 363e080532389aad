use alloy::primitives::Bytes;
use alloy::sol_types::SolValue;

use morpho_v2_reallocator::chain::heads::{
    add_recent_blocks, check_catch_up, check_chain_id, check_recent, check_selected_head,
    check_service_roles, judge_checkpoint, log_hint, log_retry_delay, match_bundle,
    needs_cursor_header, order_queried_logs, order_receipts, plan_catch_up_queries,
    plan_first_poll, plan_next_poll, queried_log, recent_start, retain_log,
    retryable_log_query_error, transactions_of, transfer_signature, CanonicalLogFilter,
    ChainServiceConfig, PollPlan,
};
use morpho_v2_reallocator::chain::logs::{
    classify_transaction, decode_event, AdapterEventKind, DecodedEvent, EventDecodeError,
    EventEncoding, EventSignatures, EventSource, FlowOrigin, MorphoEventKind, RawEventLog,
    StateInvalidation, VaultEventKind, WatchedEventKind,
};
use morpho_v2_reallocator::chain::multicall::{
    bind_reported_header, context_and_authoritative_calls, decode_aggregate,
    decode_reported_block_number, encode_aggregate, finish_latest, read_aggregate, AtomicCall,
    AtomicReadResult, AttemptStep, MulticallError, ReadAttempts,
};
use morpho_v2_reallocator::chain::provider::{
    advance_probe, check_endpoint, check_envelope, format_quantity, parse_quantity,
    provider_roles, require_any_role, require_block, require_role, ProbeReply, ProbeState,
    ProbeStep, ProviderError, ProviderRole, RpcErrorCategory, RpcHeader, RpcLog, RpcReceipt,
};
use morpho_v2_reallocator::chain::provider_consensus::{
    select_consistent_optional_view, OptionalViewSelectionError,
};
use morpho_v2_reallocator::chain::receipts::{
    copy_log, validate_receipt, validate_receipts, validate_standalone_log, watched_logs,
    CanonicalLogRecord,
};
use morpho_v2_reallocator::chain::reorg::{AncestorSearch, AncestorStep};
use morpho_v2_reallocator::chain::ChainError;
use morpho_v2_reallocator::collections::{OrderedMap, OrderedSet};
use morpho_v2_reallocator::config::RpcRole;
use morpho_v2_reallocator::domain::{
    AdapterAddress, BlockHashBinding, BlockRef, MarketId, TokenAddress, VaultAddress,
};
use morpho_v2_reallocator::primitives::{Address, B256};

#[derive(Clone, Copy, Debug, Eq, PartialEq)]
enum ProbeError {
    Primary,
    Checkpoint,
}

struct OnlyTopicless;

impl CanonicalLogFilter for OnlyTopicless {
    fn retain(&self, log: &CanonicalLogRecord) -> Result<bool, ChainError> {
        Ok(log.topics[0].is_none())
    }
}

fn b(byte: u8) -> B256 {
    B256::with_last_byte(byte)
}

fn a(byte: u8) -> Address {
    Address::with_last_byte(byte)
}

fn block(number: u64, hash: u8, parent: u8) -> BlockRef {
    BlockRef {
        number,
        hash: b(hash),
        parent_hash: b(parent),
        timestamp: 1_000 + number,
        gas_limit: 2_000_000,
    }
}

fn quantity(value: u64) -> Option<String> {
    Some(format!("0x{:x}", value))
}

fn raw_log(block: BlockRef, transaction: u8, transaction_index: u64, log_index: u64) -> RpcLog {
    RpcLog {
        address: a(50),
        topics: vec![b(1), b(2)],
        data: vec![7],
        block_number: quantity(block.number),
        block_hash: Some(block.hash),
        transaction_hash: Some(b(transaction)),
        transaction_index: quantity(transaction_index),
        log_index: quantity(log_index),
        removed: false,
    }
}

fn raw_receipt(block: BlockRef, transaction: u8, index: u64, logs: Vec<RpcLog>) -> RpcReceipt {
    RpcReceipt {
        transaction_hash: b(transaction),
        block_hash: block.hash,
        block_number: format!("0x{:x}", block.number),
        transaction_index: format!("0x{:x}", index),
        status: Some("0x1".to_owned()),
        gas_used: "0x5208".to_owned(),
        logs,
    }
}

fn service() -> ChainServiceConfig {
    let mut watched_addresses = OrderedSet::new();
    watched_addresses.insert(a(50));
    ChainServiceConfig {
        chain_id: 999,
        event_start_block: 10,
        maximum_log_range: 5,
        reorg_rescan_blocks: 3,
        watched_addresses,
        latest_only: false,
    }
}

fn word(value: u64) -> Vec<u8> {
    let mut bytes = vec![0_u8; 24];
    bytes.extend_from_slice(&value.to_be_bytes());
    bytes
}

fn aggregate(number: u64, timestamp: u64, chain: u64, parent: u8, extra: Vec<Vec<u8>>) -> Vec<(bool, Vec<u8>)> {
    let mut results = vec![
        (true, word(number)),
        (true, word(timestamp)),
        (true, word(chain)),
        (true, word(parent.into())),
    ];
    for data in extra {
        results.push((true, data));
    }
    results
}

fn encoded(results: &[(bool, Vec<u8>)]) -> Vec<u8> {
    let values: Vec<(bool, Bytes)> = results
        .iter()
        .map(|(success, data)| (*success, Bytes::copy_from_slice(data)))
        .collect();
    values.abi_encode()
}

fn signatures() -> EventSignatures {
    EventSignatures {
        vault: vec![(b(1), VaultEventKind::Deposit), (b(2), VaultEventKind::Allocate)],
        adapter: vec![(b(3), AdapterEventKind::BurnShares)],
        morpho: vec![(b(4), MorphoEventKind::Supply), (b(5), MorphoEventKind::Liquidate)],
        borrow_rate_update: b(6),
    }
}

fn event(topics: Vec<B256>) -> RawEventLog {
    RawEventLog { address: a(50), topics, data: vec![1, 2, 3] }
}

fn encoding(raw: &RawEventLog) -> Option<EventEncoding> {
    Some(EventEncoding { topics: raw.topics.clone(), data: raw.data.clone() })
}

#[test]
fn only_transient_log_failures_are_retried() {
    assert!(retryable_log_query_error(&ProviderError::Transport { method: "eth_getLogs" }));
    assert!(retryable_log_query_error(&ProviderError::MalformedResponse {
        method: "eth_getLogs",
    }));
    assert!(retryable_log_query_error(&ProviderError::HttpStatus {
        method: "eth_getLogs",
        status: 429,
    }));
    assert!(!retryable_log_query_error(&ProviderError::Rpc {
        method: "eth_getLogs",
        code: -32_000,
        category: RpcErrorCategory::Unknown,
    }));
    assert!(!retryable_log_query_error(&ProviderError::HttpStatus {
        method: "eth_getLogs",
        status: 400,
    }));
}

#[test]
fn quantity_codec_is_canonical_and_checked() {
    assert_eq!(format_quantity(0), "0x0");
    assert_eq!(format_quantity(255), "0xff");
    assert_eq!(parse_quantity("test", "0xff"), Ok(255));
    assert!(parse_quantity("test", "ff").is_err());
    assert!(parse_quantity("test", "0x").is_err());
    assert!(parse_quantity("test", "0x10000000000000000").is_err());
}

#[test]
fn optional_view_selection_truth_table_preserves_existing_semantics() {
    assert_eq!(
        select_consistent_optional_view(vec![Ok(Some(7_u64)), Err(ProbeError::Checkpoint)]),
        Ok(Some(7))
    );
    assert_eq!(
        select_consistent_optional_view(vec![
            Err::<Option<u64>, _>(ProbeError::Primary),
            Ok(Some(7)),
        ]),
        Ok(Some(7))
    );
    assert_eq!(
        select_consistent_optional_view(vec![
            Ok::<Option<u64>, ProbeError>(Some(7)),
            Ok(Some(7)),
        ]),
        Ok(Some(7))
    );
    assert_eq!(
        select_consistent_optional_view(vec![
            Ok::<Option<u64>, ProbeError>(Some(7)),
            Ok(Some(8)),
        ]),
        Err(OptionalViewSelectionError::Disagreement)
    );
    assert_eq!(
        select_consistent_optional_view(vec![Ok::<Option<u64>, ProbeError>(None), Ok(None)]),
        Ok(None)
    );
    assert_eq!(
        select_consistent_optional_view(vec![Ok(None::<u64>), Err(ProbeError::Checkpoint)]),
        Err(OptionalViewSelectionError::Unavailable(ProbeError::Checkpoint))
    );
    assert_eq!(
        select_consistent_optional_view(vec![
            Err::<Option<u64>, _>(ProbeError::Primary),
            Err(ProbeError::Checkpoint),
        ]),
        Err(OptionalViewSelectionError::Unavailable(ProbeError::Primary))
    );
    assert_eq!(
        select_consistent_optional_view(Vec::<Result<Option<u64>, ProbeError>>::new()),
        Ok(None)
    );
}

#[test]
fn quantities_round_trip() {
    for value in [0, 1, 15, 16, 0xdead_beef, u64::MAX] {
        assert_eq!(format_quantity(value), format!("0x{:x}", value));
        assert_eq!(parse_quantity("value", &format_quantity(value)), Ok(value));
    }
    assert_eq!(parse_quantity("value", "0xABC"), Ok(0xabc));
    for malformed in ["0x-1", "0x+5", "0x+", "0X5", "0x5 ", "0x0g", "+0x5"] {
        assert_eq!(
            parse_quantity("value", malformed),
            Err(ProviderError::Quantity { field: "value" })
        );
    }
}

#[test]
fn headers_become_block_references() {
    let header = RpcHeader {
        number: "0x10".to_owned(),
        hash: b(1),
        parent_hash: b(2),
        timestamp: "0x20".to_owned(),
        gas_limit: "0x30".to_owned(),
    };
    let reference = header.into_block_ref().unwrap();
    assert_eq!(reference.number, 16);
    assert_eq!(reference.timestamp, 32);
    assert_eq!(reference.gas_limit, 48);
    assert_eq!(require_block(None), Err(ProviderError::MissingBlock));
}

#[test]
fn roles_are_required() {
    let name = "primary".to_owned();
    let roles = provider_roles(&vec![RpcRole::Read, RpcRole::Head]);
    assert_eq!(require_role(&name, &roles, ProviderRole::Head), Ok(()));
    assert_eq!(
        require_role(&name, &roles, ProviderRole::Submit),
        Err(ProviderError::MissingRole { provider: name.clone(), role: ProviderRole::Submit })
    );
    assert_eq!(
        require_any_role(&name, &roles, &vec![ProviderRole::Submit, ProviderRole::Read]),
        Ok(())
    );
    assert!(check_service_roles(&name, &roles, None).is_err());
    assert_eq!(check_chain_id(999, 999), Ok(()));
    assert_eq!(
        check_chain_id(999, 1),
        Err(ProviderError::ChainMismatch { expected: 999, observed: 1 })
    );
}

#[test]
fn endpoints_must_be_http() {
    assert_eq!(check_endpoint("https://rpc.example/path?key=SECRET-REDACTED"), Ok(()));
    assert_eq!(check_endpoint("HTTP://127.0.0.1:8545"), Ok(()));
    assert_eq!(check_endpoint("wss://rpc.example"), Err(ProviderError::Endpoint));
    assert_eq!(check_endpoint("not a url"), Err(ProviderError::Endpoint));
}

#[test]
fn envelopes_are_matched() {
    let version = "2.0".to_owned();
    assert_eq!(check_envelope("eth_call", 3, &version, 3, None), Ok(()));
    assert_eq!(
        check_envelope("eth_call", 3, &version, 4, None),
        Err(ProviderError::MalformedResponse { method: "eth_call" })
    );
    assert_eq!(
        check_envelope("eth_call", 3, &version, 3, Some((-32_601, RpcErrorCategory::Unknown))),
        Err(ProviderError::MethodUnsupported { method: "eth_call" })
    );
    assert_eq!(
        check_envelope("eth_call", 3, &version, 3, Some((-32_005, RpcErrorCategory::RateLimited))),
        Err(ProviderError::Rpc {
            method: "eth_call",
            code: -32_005,
            category: RpcErrorCategory::RateLimited,
        })
    );
}

#[test]
fn probe_stops_on_another_chain() {
    assert_eq!(
        advance_probe(ProbeState::ChainId, 999, ProbeReply::Quantity("0x1".to_owned())),
        Err(ProviderError::ChainMismatch { expected: 999, observed: 1 })
    );
    assert_eq!(
        advance_probe(ProbeState::ChainId, 999, ProbeReply::Quantity("0x3e7".to_owned())),
        Ok(ProbeStep::Continue(ProbeState::LatestHeader { chain_id: 999 }))
    );
    assert_eq!(
        advance_probe(
            ProbeState::LatestHeader { chain_id: 999 },
            999,
            ProbeReply::Header(None)
        ),
        Err(ProviderError::MissingBlock)
    );
}

#[test]
fn polls_follow_the_cursor() {
    let config = service();
    assert_eq!(
        plan_first_poll(&config, block(9, 1, 2)),
        PollPlan::CatchUp { start: 10, publish: true }
    );
    assert_eq!(
        plan_first_poll(&config, block(12, 1, 2)),
        PollPlan::CatchUp { start: 10, publish: true }
    );
    let cursor = block(12, 4, 3);
    assert_eq!(plan_next_poll(&config, cursor, cursor, Some(cursor.hash)), PollPlan::Idle);
    assert!(needs_cursor_header(block(14, 6, 5), cursor));
    assert_eq!(
        plan_next_poll(&config, block(14, 6, 5), cursor, Some(cursor.hash)),
        PollPlan::CatchUp { start: 13, publish: true }
    );
    assert_eq!(
        plan_next_poll(&config, block(14, 6, 5), cursor, Some(b(99))),
        PollPlan::Rewind
    );
}

#[test]
fn blocks_must_be_contiguous() {
    assert_eq!(check_catch_up(Some(block(5, 1, 0)), block(6, 2, 1)), Ok(()));
    assert!(check_catch_up(Some(block(5, 1, 0)), block(6, 2, 9)).is_err());
    assert_eq!(check_catch_up(None, block(6, 2, 9)), Ok(()));
    assert!(check_selected_head(block(6, 2, 1), b(2)).is_ok());
    assert!(check_selected_head(block(6, 2, 1), b(3)).is_err());
    assert!(check_recent(Some(block(5, 1, 0)), block(6, 2, 9), 5).is_err());
    assert_eq!(recent_start(10, 100, 3), 98);
    let mut numbers = OrderedSet::new();
    add_recent_blocks(&mut numbers, 98, 100);
    assert_eq!(numbers.len(), 3);
    assert!(numbers.contains(98) && numbers.contains(100));
}

#[test]
fn queries_cover_the_range_in_bounded_chunks() {
    let config = service();
    let queries = plan_catch_up_queries(&config, &OrderedMap::new(), 10, block(21, 1, 2));
    let ranges: Vec<(u64, u64)> = queries.iter().map(|query| (query.from, query.to)).collect();
    assert_eq!(ranges, vec![(10, 14), (15, 19), (20, 21)]);
    assert_eq!(queries[0].addresses, vec![a(50)]);
    assert_eq!(
        transfer_signature().to_bytes(),
        alloy::primitives::keccak256("Transfer(address,address,uint256)").to_vec()
    );
}

#[test]
fn standalone_logs_are_attributed() {
    let at = block(12, 4, 3);
    let log = validate_standalone_log(999, at, &raw_log(at, 60, 2, 5)).unwrap();
    assert_eq!(log.transaction_index, 2);
    assert_eq!(log.log_index, 5);
    assert_eq!(log.block_hash, at.hash);
    assert_eq!(log.topics, [Some(b(1)), Some(b(2)), None, None]);

    let mut removed = raw_log(at, 60, 2, 5);
    removed.removed = true;
    assert!(validate_standalone_log(999, at, &removed).is_err());
    let mut elsewhere = raw_log(at, 60, 2, 5);
    elsewhere.block_hash = Some(b(99));
    assert!(validate_standalone_log(999, at, &elsewhere).is_err());
    let mut pending = raw_log(at, 60, 2, 5);
    pending.transaction_hash = None;
    assert!(validate_standalone_log(999, at, &pending).is_err());
    let mut crowded = raw_log(at, 60, 2, 5);
    crowded.topics = vec![b(1); 5];
    assert!(validate_standalone_log(999, at, &crowded).is_err());
}

#[test]
fn receipts_are_ordered_and_unique() {
    let at = block(12, 4, 3);
    let receipts = vec![
        raw_receipt(at, 61, 1, vec![raw_log(at, 61, 1, 1)]),
        raw_receipt(at, 60, 0, vec![raw_log(at, 60, 0, 0)]),
    ];
    let records = validate_receipts(999, at, &receipts).unwrap();
    assert_eq!(records[0].transaction_index, 0);
    assert_eq!(records[1].transaction_hash, b(61));
    assert_eq!(records[0].gas_used, 21_000);
    assert_eq!(records[0].status, Some(1));
    let mut watched = OrderedSet::new();
    assert_eq!(watched_logs(&records, &watched).len(), 0);
    watched.insert(a(50));
    assert_eq!(watched_logs(&records, &watched).len(), 2);

    let duplicated = vec![raw_receipt(at, 60, 0, Vec::new()), raw_receipt(at, 60, 0, Vec::new())];
    assert!(validate_receipts(999, at, &duplicated).is_err());
    let foreign = raw_receipt(block(12, 5, 3), 60, 0, Vec::new());
    assert!(validate_receipt(999, at, &foreign).is_err());
    let swapped = raw_receipt(at, 60, 0, vec![raw_log(at, 61, 0, 0)]);
    assert!(validate_receipt(999, at, &swapped).is_err());
}

#[test]
fn hinted_and_queried_logs_agree() {
    let config = service();
    let at = block(12, 4, 3);
    let (number, hint) = log_hint(&config, 10, 14, &raw_log(at, 60, 0, 0)).unwrap();
    assert_eq!(number, 12);
    assert_eq!(hint.transaction_hash, b(60));
    assert!(log_hint(&config, 13, 14, &raw_log(at, 60, 0, 0)).is_err());
    let mut unwatched = raw_log(at, 60, 0, 0);
    unwatched.address = a(51);
    assert!(log_hint(&config, 10, 14, &unwatched).is_err());

    let first = queried_log(&config, at, &raw_log(at, 60, 0, 0)).unwrap();
    let second = queried_log(&config, at, &raw_log(at, 61, 1, 1)).unwrap();
    let ordered = order_queried_logs(&vec![copy_log(&second), copy_log(&first)]).unwrap();
    assert_eq!(ordered[0].log_index, 0);
    assert_eq!(transactions_of(&ordered).len(), 2);
    assert!(order_queried_logs(&vec![copy_log(&first), copy_log(&first)]).is_err());
    assert_eq!(match_bundle(&ordered, &vec![copy_log(&first), copy_log(&second)]), Ok(()));
    assert!(match_bundle(&ordered, &vec![copy_log(&first)]).is_err());
}

#[test]
fn bundled_receipts_are_ordered() {
    let at = block(12, 4, 3);
    let late = validate_receipt(999, at, &raw_receipt(at, 61, 1, Vec::new())).unwrap();
    let early = validate_receipt(999, at, &raw_receipt(at, 60, 0, Vec::new())).unwrap();
    let ordered = order_receipts(vec![late, early]).unwrap();
    assert_eq!(ordered[0].transaction_hash, b(60));
    let one = validate_receipt(999, at, &raw_receipt(at, 60, 0, Vec::new())).unwrap();
    let same = validate_receipt(999, at, &raw_receipt(at, 60, 0, Vec::new())).unwrap();
    assert!(order_receipts(vec![one, same]).is_err());
}

#[test]
fn user_filters_decide_on_logs() {
    let at = block(12, 4, 3);
    let log = validate_standalone_log(999, at, &raw_log(at, 60, 2, 5)).unwrap();
    assert_eq!(retain_log(None::<&OnlyTopicless>, &log), Ok(true));
    assert_eq!(retain_log(Some(&OnlyTopicless), &log), Ok(false));
}

#[test]
fn retries_are_bounded_and_growing() {
    let transient = ProviderError::Transport { method: "eth_getLogs" };
    let first = log_retry_delay(0, &transient);
    assert!(first.is_some());
    assert!(log_retry_delay(1, &transient) > first);
    assert_eq!(log_retry_delay(1_000, &transient), None);
    assert_eq!(log_retry_delay(0, &ProviderError::MissingBlock), None);
}

#[test]
fn checkpoints_are_judged() {
    let latest = block(12, 4, 3);
    assert_eq!(judge_checkpoint(latest, Ok(latest)), Ok(()));
    for other in [block(12, 5, 3), block(12, 4, 2)] {
        assert_eq!(
            judge_checkpoint(latest, Ok(other)),
            Err(ChainError::ProviderDisagreement { block_number: 12 })
        );
    }
    assert_eq!(
        judge_checkpoint(latest, Err(ProviderError::MissingBlock)),
        Err(ChainError::Provider(ProviderError::MissingBlock))
    );
}

#[test]
fn ancestor_search_walks_back_within_the_bound() {
    let mut search = AncestorSearch::begin(block(12, 4, 3), block(13, 9, 8), 3);
    assert!(matches!(search.next(), AncestorStep::Examine(12)));
    assert!(matches!(
        search.judge(Some(block(12, 4, 3)), Some(block(12, 40, 30))),
        AncestorStep::Examine(11)
    ));
    let shared = block(11, 3, 2);
    match search.judge(Some(shared), Some(shared)) {
        AncestorStep::Found(ancestor) => assert_eq!(ancestor, shared),
        other => panic!("unexpected step {:?}", other),
    }
}

#[test]
fn ancestor_search_fails_beyond_the_bound() {
    let mut search = AncestorSearch::begin(block(12, 4, 3), block(13, 9, 8), 1);
    let mut step = search.next();
    let mut examined = 0;
    while let AncestorStep::Examine(number) = step {
        examined += 1;
        assert!(examined < 10);
        step = search.judge(
            Some(block(number, 1, 0)),
            Some(block(number, 2, 0)),
        );
    }
    assert!(matches!(step, AncestorStep::Failed(ChainError::DeepReorg { .. })));
}

#[test]
fn events_are_decoded_by_source() {
    let raw = event(vec![b(1), b(9)]);
    let source = EventSource::Vault(VaultAddress(a(50)));
    let decoded = decode_event(source, &raw, &signatures(), &encoding(&raw)).unwrap();
    assert_eq!(decoded.kind, WatchedEventKind::Vault(VaultEventKind::Deposit));
    assert!(!decoded.invalidations.is_empty());

    let elsewhere = EventSource::Vault(VaultAddress(a(51)));
    assert!(matches!(
        decode_event(elsewhere, &raw, &signatures(), &encoding(&raw)),
        Err(EventDecodeError::AddressMismatch)
    ));
    let silent = event(Vec::new());
    assert!(matches!(
        decode_event(source, &silent, &signatures(), &encoding(&silent)),
        Err(EventDecodeError::MissingSignature)
    ));
    let unknown = event(vec![b(77)]);
    assert!(matches!(
        decode_event(source, &unknown, &signatures(), &encoding(&unknown)),
        Err(EventDecodeError::UnknownSignature(signature)) if signature == b(77)
    ));
    assert!(matches!(
        decode_event(source, &raw, &signatures(), &None),
        Err(EventDecodeError::Malformed(_))
    ));
    let padded = Some(EventEncoding { topics: raw.topics.clone(), data: vec![1, 2, 3, 0] });
    assert!(matches!(
        decode_event(source, &raw, &signatures(), &padded),
        Err(EventDecodeError::NonCanonical(_))
    ));
}

#[test]
fn market_events_invalidate_the_market() {
    let raw = event(vec![b(4), b(9)]);
    let source = EventSource::Morpho(a(50));
    let decoded = decode_event(source, &raw, &signatures(), &encoding(&raw)).unwrap();
    assert_eq!(decoded.kind, WatchedEventKind::Morpho(MorphoEventKind::Supply));
    assert!(decoded.invalidations.contains(&StateInvalidation::MarketState(MarketId(b(9)))));
    let adapter = EventSource::Adapter(AdapterAddress(a(50)));
    let burn = event(vec![b(3)]);
    assert_eq!(
        decode_event(adapter, &burn, &signatures(), &encoding(&burn)).unwrap().kind,
        WatchedEventKind::Adapter(AdapterEventKind::BurnShares)
    );
    let token = EventSource::Token(TokenAddress(a(50)));
    let transfer = event(vec![transfer_signature(), b(1), b(2)]);
    assert_eq!(
        decode_event(token, &transfer, &signatures(), &encoding(&transfer)).unwrap().kind,
        WatchedEventKind::Transfer
    );
}

#[test]
fn transactions_are_classified_by_sender_and_events() {
    let mut allocators = OrderedSet::new();
    allocators.insert(a(20));
    let deposit = vec![DecodedEvent {
        source: EventSource::Vault(VaultAddress(a(50))),
        kind: WatchedEventKind::Vault(VaultEventKind::Deposit),
        invalidations: Vec::new(),
    }];
    let allocation = vec![DecodedEvent {
        source: EventSource::Vault(VaultAddress(a(50))),
        kind: WatchedEventKind::Vault(VaultEventKind::Allocate),
        invalidations: Vec::new(),
    }];
    assert_eq!(classify_transaction(a(9), true, &allocators, &deposit), FlowOrigin::BotRebalance);
    assert_eq!(
        classify_transaction(a(9), false, &allocators, &deposit),
        FlowOrigin::VaultUserDeposit
    );
    assert_eq!(
        classify_transaction(a(20), false, &allocators, &allocation),
        FlowOrigin::ApprovedExternalAllocator
    );
    assert_eq!(
        classify_transaction(a(21), false, &allocators, &allocation),
        FlowOrigin::UnknownExternalAllocator
    );
    assert_eq!(
        classify_transaction(a(21), false, &allocators, &Vec::new()),
        FlowOrigin::Unknown
    );
}

#[test]
fn aggregate_calldata_brackets_the_calls() {
    let multicall = a(41);
    let calls = vec![AtomicCall { target: a(9), call_data: vec![1, 2, 3, 4] }];
    let bracketed = context_and_authoritative_calls(multicall, &calls);
    assert_eq!(bracketed.len(), 5);
    assert_eq!(bracketed[4].target, a(9));
    let calldata = encode_aggregate(multicall, &calls);
    let selector = alloy::primitives::keccak256("aggregate3((address,bool,bytes)[])");
    assert_eq!(calldata[..4], selector[..4]);
    let tuples: Vec<(alloy::primitives::Address, bool, Bytes)> = bracketed
        .iter()
        .map(|call| {
            (
                alloy::primitives::Address::from_slice(&call.target.to_bytes()),
                call.allow_failure,
                Bytes::copy_from_slice(&call.call_data),
            )
        })
        .collect();
    assert_eq!(calldata[4..], (tuples,).abi_encode_params()[..]);
}

#[test]
fn aggregates_are_bound_to_their_block() {
    let at = block(12, 4, 3);
    let results = aggregate(12, 1_010, 999, 3, vec![vec![5, 6]]);
    let read = decode_aggregate(&encoded(&results), 999, at, BlockHashBinding::Proven, 2, 1);
    let read = read.unwrap();
    assert_eq!(read.evm_timestamp, 1_010);
    assert_eq!(read.return_data, vec![vec![5, 6]]);
    assert_eq!(decode_reported_block_number(&encoded(&results), 999, 1), Ok(12));

    let lagging = read_aggregate(&results, 999, at, BlockHashBinding::Proven, 1, 1);
    assert_eq!(lagging.unwrap_err(), MulticallError::ContextMismatch);
    let other_parent = aggregate(12, 1_010, 999, 2, vec![vec![5, 6]]);
    assert_eq!(
        read_aggregate(&other_parent, 999, at, BlockHashBinding::Proven, 2, 1).unwrap_err(),
        MulticallError::ContextMismatch
    );
    assert_eq!(
        read_aggregate(&results, 999, at, BlockHashBinding::Proven, 2, 2).unwrap_err(),
        MulticallError::MalformedAggregate
    );
    let mut failed = aggregate(12, 1_010, 999, 3, vec![vec![5, 6], vec![7]]);
    failed[5].0 = false;
    assert_eq!(
        read_aggregate(&failed, 999, at, BlockHashBinding::Proven, 2, 2).unwrap_err(),
        MulticallError::AuthoritativeCallFailed { index: 1 }
    );
    let mut padded = encoded(&results);
    padded.push(0);
    assert_eq!(
        decode_aggregate(&padded, 999, at, BlockHashBinding::Proven, 2, 1).unwrap_err(),
        MulticallError::MalformedAggregate
    );
    assert_eq!(
        decode_aggregate(&vec![1, 2, 3], 999, at, BlockHashBinding::Proven, 2, 1).unwrap_err(),
        MulticallError::MalformedAggregate
    );
}

#[test]
fn latest_reads_need_a_still_head() {
    let at = block(12, 4, 3);
    let results = encoded(&aggregate(12, 1_012, 999, 3, Vec::new()));
    assert!(finish_latest(&results, 999, at, at, 0).is_ok());
    assert_eq!(
        finish_latest(&results, 999, at, block(13, 5, 4), 0).unwrap_err(),
        MulticallError::CursorNotAtHead
    );
    assert!(bind_reported_header(Ok(at)).is_ok());
    assert_eq!(
        bind_reported_header(Err(ProviderError::MissingBlock)).unwrap_err(),
        MulticallError::ContextChanged
    );
}

#[test]
fn read_attempts_are_bounded() {
    assert_eq!(ReadAttempts::begin(0), Err(MulticallError::InvalidRetryBound));
    let mut attempts = ReadAttempts::begin(2).unwrap();
    assert!(matches!(
        attempts.judge(Err(MulticallError::ContextChanged)),
        AttemptStep::Repeat
    ));
    assert!(matches!(
        attempts.judge(Err(MulticallError::ContextChanged)),
        AttemptStep::Finish(Err(MulticallError::ContextChanged))
    ));
    let mut attempts = ReadAttempts::begin(2).unwrap();
    let read = AtomicReadResult {
        block: block(12, 4, 3),
        evm_timestamp: 1,
        block_hash_binding: BlockHashBinding::Unproven,
        return_data: Vec::new(),
    };
    assert!(matches!(attempts.judge(Ok(read)), AttemptStep::Finish(Ok(_))));
    let mut attempts = ReadAttempts::begin(2).unwrap();
    assert!(matches!(
        attempts.judge(Err(MulticallError::MalformedAggregate)),
        AttemptStep::Finish(Err(MulticallError::MalformedAggregate))
    ));
}
