use morpho_v2_reallocator::api::dto::{RateSnapshotView, TransactionSummary, TransactionView};
use morpho_v2_reallocator::api::{ApiDataStore, ApiStatePublication};
use morpho_v2_reallocator::collections::{OrderedMap, OrderedSet};
use morpho_v2_reallocator::domain::{
    BlockHashBinding, BlockRef, ExactVaultSnapshot, IdleLockLedgerSnapshot, ParentVaultState,
    PlanId, PlanProjection, PlanReason, SolverCertificate, StateContext, V2Plan, VaultAddress,
    VaultCapabilities,
};
use morpho_v2_reallocator::primitives::{Address, B256, I256, U256};

#[derive(Clone, Copy, Debug, PartialEq, Eq)]
enum Lifecycle {
    Pending,
    Included,
}

fn b(byte: u8) -> B256 {
    B256::with_last_byte(byte)
}

fn vault() -> VaultAddress {
    VaultAddress(Address::with_last_byte(1))
}

fn block(number: u64, hash: u8) -> BlockRef {
    BlockRef {
        number,
        hash: b(hash),
        parent_hash: b(0),
        timestamp: 1_000 + number,
        gas_limit: 2_000_000,
    }
}

fn context(at: BlockRef) -> StateContext {
    StateContext {
        chain_id: 999,
        block: at,
        block_hash_binding: BlockHashBinding::Proven,
        static_config_revision: b(60),
        dynamic_topology_revision: b(61),
    }
}

fn snapshot(at: BlockRef, hash: u8) -> ExactVaultSnapshot {
    ExactVaultSnapshot {
        context: context(at),
        parent: ParentVaultState {
            vault: vault().0,
            asset: Address::with_last_byte(2),
            idle_assets: U256::zero(),
            stored_total_assets: U256::zero(),
            last_update: 1,
            max_rate: U256::zero(),
            total_supply: U256::zero(),
            virtual_shares: U256::one(),
            performance_fee: U256::zero(),
            performance_fee_recipient: Address::zero(),
            performance_fee_recipient_allowed: true,
            management_fee: U256::zero(),
            management_fee_recipient: Address::zero(),
            management_fee_recipient_allowed: true,
            receive_shares_gate: Address::zero(),
            send_shares_gate: Address::zero(),
            receive_assets_gate: Address::zero(),
            send_assets_gate: Address::zero(),
            adapter_registry: Address::zero(),
            liquidity_adapter: Address::zero(),
            liquidity_data: Vec::new(),
            force_deallocate_penalties: OrderedMap::new(),
            approved_allocators: OrderedSet::new(),
            approved_sentinels: OrderedSet::new(),
            dead_address: Address::zero(),
            dead_share_balance: U256::zero(),
            required_dead_shares: U256::zero(),
        },
        adapters: OrderedMap::new(),
        liquidity_adapter: None,
        positions: OrderedMap::new(),
        markets: OrderedMap::new(),
        caps: OrderedMap::new(),
        pending_admin: Vec::new(),
        capabilities: VaultCapabilities {
            can_observe: true,
            can_project: true,
            can_allocate: true,
            can_deallocate_supported_position: true,
            can_model_user_deposit: true,
            can_model_user_withdrawal: true,
            lock_ledger_verified: true,
            seed_requirements_verified: true,
            reward_policy_ready: true,
            rate_episode_state_verified: true,
        },
        idle_locks: IdleLockLedgerSnapshot {
            locks: Vec::new(),
            unattributed_idle_assets: U256::zero(),
            verified: true,
        },
        snapshot_hash: b(hash),
    }
}

fn rates(at: BlockRef, hash: u8) -> RateSnapshotView {
    RateSnapshotView {
        vault: vault(),
        snapshot_hash: b(hash),
        block: at,
        spread_rate_per_second_wad: U256::zero(),
        spread_apr_bps: 0,
        markets: Vec::new(),
    }
}

fn publication(at: BlockRef, projected: BlockRef, hash: u8) -> ApiStatePublication {
    ApiStatePublication::from_validated_projection(
        snapshot(at, hash),
        rates(projected, hash),
        projected,
    )
    .expect("the projection follows the snapshot")
}

fn plan(at: BlockRef, generation: u64, id: u8) -> V2Plan {
    V2Plan {
        plan_id: PlanId(b(id)),
        reason: PlanReason::RateRebalance,
        vault: vault(),
        snapshot: context(at),
        config_revision: b(60),
        topology_revision: b(61),
        planner_generation: generation,
        actions: Vec::new(),
        projection: PlanProjection {
            movement_assets: U256::zero(),
            before_spread: U256::zero(),
            after_spread: U256::zero(),
            immediate_loss_assets: U256::zero(),
            terminal_value_delta_assets: I256::zero(),
        },
        solver_certificate: SolverCertificate {
            candidate_lattice_hash: b(1),
            nodes_evaluated: 0,
            node_limit: 0,
            search_complete_for_lattice: true,
            rate_episode_id: None,
            objective_branch: None,
            target_reachable: true,
            target_reached: true,
        },
        episode_id: None,
        plan_hash: b(2),
    }
}

fn store() -> ApiDataStore<Lifecycle> {
    ApiDataStore::new()
}

#[test]
fn projections_must_follow_their_snapshot() {
    let at = block(10, 5);
    let bind = |projected: BlockRef, viewed: BlockRef| {
        ApiStatePublication::from_validated_projection(
            snapshot(at, 7),
            rates(viewed, 7),
            projected,
        )
        .is_some()
    };
    assert!(bind(at, at));
    assert!(bind(block(12, 6), block(12, 6)));
    assert!(!bind(block(10, 6), block(10, 6)));
    assert!(!bind(block(9, 4), block(9, 4)));
    assert!(!bind(block(12, 6), at));
    let (base, view, projected) = publication(at, block(12, 6), 7).into_parts();
    assert_eq!(base.context.block, at);
    assert_eq!(view.block, projected);
}

#[test]
fn publications_advance_and_orphans_are_refused() {
    let mut store = store();
    let epoch = store.state_epoch(999, vault()).unwrap();
    assert!(store.state_epoch(998, vault()).is_none());
    assert!(store.record_state(epoch, publication(block(10, 5), block(11, 6), 7)));
    assert!(!store.record_state(epoch, publication(block(9, 4), block(12, 8), 7)));
    assert!(!store.record_state(epoch, publication(block(10, 9), block(12, 8), 7)));
    assert!(!store.record_state(epoch, publication(block(10, 5), block(11, 9), 7)));
    assert!(store.record_state(epoch, publication(block(10, 5), block(12, 8), 7)));
    assert_eq!(store.snapshot(vault()).unwrap().context.block, block(10, 5));
    assert_eq!(store.rates(vault()).unwrap().block, block(12, 8));
    let (_, _, projected) = store.validated_state(vault()).unwrap().parts();
    assert_eq!(projected, block(12, 8));

    let next = store.rewind_vault(999, vault()).unwrap();
    assert_ne!(next, epoch);
    assert_eq!(store.state_epoch(999, vault()), Some(next));
    assert!(store.snapshot(vault()).is_none());
    assert!(store.validated_state(vault()).is_none());
    assert!(!store.record_state(epoch, publication(block(20, 5), block(21, 6), 7)));
    assert!(store.record_state(next, publication(block(8, 3), block(8, 3), 7)));
}

#[test]
fn mismatched_rates_are_refused() {
    let mut store = store();
    let epoch = store.state_epoch(999, vault()).unwrap();
    let mut foreign = rates(block(10, 5), 7);
    foreign.vault = VaultAddress(Address::with_last_byte(9));
    let publication = ApiStatePublication::from_validated_projection(
        snapshot(block(10, 5), 7),
        foreign,
        block(10, 5),
    )
    .unwrap();
    assert!(!store.record_state(epoch, publication));
    let other_hash = ApiStatePublication::from_validated_projection(
        snapshot(block(10, 5), 7),
        rates(block(10, 5), 8),
        block(10, 5),
    )
    .unwrap();
    assert!(!store.record_state(epoch, other_hash));
}

#[test]
fn plans_belong_to_the_current_snapshot() {
    let mut store = store();
    let at = block(10, 5);
    assert!(!store.record_plan(plan(at, 1, 30)));
    let epoch = store.state_epoch(999, vault()).unwrap();
    assert!(store.record_state(epoch, publication(at, at, 7)));
    assert!(store.record_plan(plan(at, 2, 31)));
    assert!(!store.record_plan(plan(at, 1, 32)));
    assert!(!store.record_plan(plan(at, 2, 33)));
    assert!(store.record_plan(plan(at, 2, 31)));
    assert!(store.record_plan(plan(at, 3, 34)));
    assert!(!store.record_plan(plan(block(11, 6), 4, 35)));
    assert!(!store.clear_plan_if(vault(), PlanId(b(31))));
    assert!(!store.clear_plan_through(vault(), 9, 9));
    assert!(!store.clear_plan_through(vault(), 10, 2));
    assert!(store.clear_plan_through(vault(), 10, 3));
    assert!(store.plan(vault()).is_none());
    assert!(store.record_plan(plan(at, 1, 36)));
    assert!(store.clear_plan_if(vault(), PlanId(b(36))));

    assert!(store.record_plan(plan(at, 1, 37)));
    assert!(store.record_state(epoch, publication(block(11, 6), block(11, 6), 8)));
    assert!(store.plan(vault()).is_none());
}

#[test]
fn transactions_are_kept_in_hash_order() {
    let mut store = store();
    let view = |hash: u8, state: Lifecycle| TransactionView {
        transaction_hash: b(hash),
        state,
        included_block: None,
        revision: 1,
    };
    store.record_transaction(view(9, Lifecycle::Pending));
    store.record_transaction(view(3, Lifecycle::Pending));
    store.record_transaction(view(9, Lifecycle::Included));
    let held = store.transactions();
    assert_eq!(held.len(), 2);
    assert_eq!(held[0].transaction_hash, b(3));
    assert_eq!(held[1].state, Lifecycle::Included);

    let mut revisions = OrderedMap::new();
    revisions.insert(vault(), 42);
    let summaries = vec![
        TransactionSummary {
            transaction_hash: b(5),
            vault: vault(),
            state: Lifecycle::Included,
            included_block: Some(7),
        },
        TransactionSummary {
            transaction_hash: b(4),
            vault: VaultAddress(Address::with_last_byte(8)),
            state: Lifecycle::Pending,
            included_block: None,
        },
    ];
    store.refresh_transactions(&summaries, &revisions);
    assert_eq!(store.transactions().len(), 2);
    assert_eq!(store.transaction(b(5)).unwrap().revision, 42);
    assert_eq!(store.transaction(b(4)).unwrap().revision, 0);
    assert!(store.transaction(b(9)).is_none());
}
