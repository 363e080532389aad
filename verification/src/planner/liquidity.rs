//! Liquidity-maintenance planning.
//! Exact source-local and shared Morpho token-liquidity constraints.

use vstd::prelude::*;

use crate::collections::{value_of, value_of_with_value, with_value, OrderedMap, ordered_entries};
use crate::config::{SolverConfigCanonical, ValidatedPositionConfig, ValidatedVaultConfig};
use crate::domain::{
    actions_view, bytes_equal, copy_bytes, encode_adapter_data, market_params_encoding, ActionKind,
    ActionView, AdapterAddress, CapRef, ExactVaultSnapshot, MarketMode, PositionKey,
    ProjectedVaultView, TokenAddress, V2Action,
};
use crate::planner::candidates::{
    append_bytes, build_candidate_lattice, lattice_amounts, lattice_hash,
};
use crate::planner::capital::{
    allocation_cap_boundaries, allocation_cap_boundaries_spec, cap_headroom_spec,
    projected_cap_headroom,
};
use crate::planner::certificate::{CertificateView, RejectionReason, SearchCertificate};
use crate::planner::distributions::{
    bounded_distributions, bounded_distributions_spec, copy_row, rows_view,
};
use crate::planner::moves::{
    action_headroom, build_lattices, checked_total, checked_total_from, headroom_of,
    lattice_hashes_from, lattices_of,
};
use crate::planner::rate::{enumeration_limit, nodes_left};
use crate::planner::simulator::{
    initial_state, position_assets, service_constraints_spec, simulate_actions, simulation_spec,
    unreserved_idle_spec, SimulationError, SimulationState, SimulationView,
};
use crate::primitives::{
    b256, big_endian, difference, group_b256, group_u256, keccak256, keccak256_digest,
    saturating_difference, smaller, sum, u256, U256,
};

verus! {

/// One sequential shared-loan-token liquidity ledger.
pub struct SharedTokenLiquidity {
    remaining: OrderedMap<TokenAddress, U256>,
}

impl View for SharedTokenLiquidity {
    type V = Seq<(TokenAddress, U256)>;

    closed spec fn view(&self) -> Seq<(TokenAddress, U256)> {
        self.remaining@
    }
}

impl Clone for SharedTokenLiquidity {
    fn clone(&self) -> (r: Self)
        ensures
            r@ == self@,
    {
        SharedTokenLiquidity { remaining: self.remaining.clone() }
    }
}

impl Default for SharedTokenLiquidity {
    fn default() -> (r: Self)
        ensures
            r@ == Seq::<(TokenAddress, U256)>::empty(),
    {
        SharedTokenLiquidity { remaining: OrderedMap::new() }
    }
}

/// Fail-closed shared-liquidity error.
#[derive(Clone, Copy, Debug, PartialEq, Eq, Structural)]
pub enum LiquidityError {
    /// Two authoritative observations disagree for the same shared token balance.
    InconsistentBalance,
    /// A token was consumed before its exact balance was registered.
    MissingToken,
    /// The ordered plan consumes more than the one shared token balance.
    Exhausted,
}

/// Balance registered for a token.
pub open spec fn remaining_spec(
    ledger: Seq<(TokenAddress, U256)>,
    token: TokenAddress,
) -> Result<U256, LiquidityError> {
    value_of(ledger, token).ok_or(LiquidityError::MissingToken)
}

/// Ledger after registering an exact balance.
pub open spec fn registered(
    ledger: Seq<(TokenAddress, U256)>,
    token: TokenAddress,
    balance: U256,
) -> Result<Seq<(TokenAddress, U256)>, LiquidityError> {
    match value_of(ledger, token) {
        None => Ok(with_value(ledger, token, balance)),
        Some(existing) => if existing == balance {
            Ok(ledger)
        } else {
            Err(LiquidityError::InconsistentBalance)
        },
    }
}

/// Balance left after consuming assets.
pub open spec fn consumed(
    ledger: Seq<(TokenAddress, U256)>,
    token: TokenAddress,
    assets: U256,
) -> Result<U256, LiquidityError> {
    match value_of(ledger, token) {
        None => Err(LiquidityError::MissingToken),
        Some(existing) => difference(existing, assets).ok_or(LiquidityError::Exhausted),
    }
}

/// Balance left after crediting assets.
pub open spec fn credited(
    ledger: Seq<(TokenAddress, U256)>,
    token: TokenAddress,
    assets: U256,
) -> Result<U256, LiquidityError> {
    match value_of(ledger, token) {
        None => Err(LiquidityError::MissingToken),
        Some(existing) => sum(existing, assets).ok_or(LiquidityError::Exhausted),
    }
}

impl SharedTokenLiquidity {
    /// Registers one exact Morpho token balance; repeated market observations must agree.
    pub fn register(&mut self, token: TokenAddress, exact_balance: U256) -> (r: Result<
        (),
        LiquidityError,
    >)
        ensures
            match registered(old(self)@, token, exact_balance) {
                Ok(ledger) => r is Ok && final(self)@ == ledger,
                Err(error) => r == Err::<(), LiquidityError>(error) && final(self)@ == old(self)@,
            },
    {
        match self.remaining.get(token) {
            Some(existing) => {
                if existing != exact_balance {
                    return Err(LiquidityError::InconsistentBalance);
                }
            },
            None => {
                self.remaining.insert(token, exact_balance);
            },
        }
        Ok(())
    }

    /// Consumes asset units once in sequential action order.
    pub fn consume(&mut self, token: TokenAddress, assets: U256) -> (r: Result<
        U256,
        LiquidityError,
    >)
        ensures
            r == consumed(old(self)@, token, assets),
            final(self)@ == (match r {
                Ok(left) => with_value(old(self)@, token, left),
                Err(_) => old(self)@,
            }),
    {
        let existing = self.remaining.get(token).ok_or(LiquidityError::MissingToken)?;
        let left = existing.checked_sub(assets).ok_or(LiquidityError::Exhausted)?;
        self.remaining.insert(token, left);
        Ok(left)
    }

    /// Credits supplied asset units after an allocation reaches Morpho.
    pub fn credit(&mut self, token: TokenAddress, assets: U256) -> (r: Result<
        U256,
        LiquidityError,
    >)
        ensures
            r == credited(old(self)@, token, assets),
            final(self)@ == (match r {
                Ok(left) => with_value(old(self)@, token, left),
                Err(_) => old(self)@,
            }),
    {
        let existing = self.remaining.get(token).ok_or(LiquidityError::MissingToken)?;
        let left = existing.checked_add(assets).ok_or(LiquidityError::Exhausted)?;
        self.remaining.insert(token, left);
        Ok(left)
    }

    /// Returns the remaining exact token balance.
    pub fn remaining(&self, token: TokenAddress) -> (r: Result<U256, LiquidityError>)
        ensures
            r == remaining_spec(self@, token),
    {
        self.remaining.get(token).ok_or(LiquidityError::MissingToken)
    }
}

/// Crediting what was consumed restores every balance of the ledger.
pub proof fn credit_undoes_consume(
    ledger: Seq<(TokenAddress, U256)>,
    token: TokenAddress,
    assets: U256,
    other: TokenAddress,
)
    requires
        ordered_entries(ledger),
        consumed(ledger, token, assets) is Ok,
    ensures
        ({
            let spent = with_value(ledger, token, consumed(ledger, token, assets)->Ok_0);
            &&& credited(spent, token, assets) is Ok
            &&& value_of(
                with_value(spent, token, credited(spent, token, assets)->Ok_0),
                other,
            ) == value_of(ledger, other)
        }),
{
    broadcast use group_u256;

    let left = consumed(ledger, token, assets)->Ok_0;
    let spent = with_value(ledger, token, left);
    value_of_with_value(ledger, token, left, token);
    value_of_with_value(ledger, token, left, other);
    let restored = credited(spent, token, assets)->Ok_0;
    value_of_with_value(spent, token, restored, other);
}

/// Checks source accounting liquidity, shared token liquidity and WAD utilization.
pub fn source_constraints_hold(
    accounting_liquidity: U256,
    shared_token_liquidity: U256,
    utilization: U256,
    minimum_accounting_liquidity: U256,
    minimum_token_liquidity: U256,
    maximum_utilization: U256,
) -> (r: bool)
    ensures
        r == (accounting_liquidity@ >= minimum_accounting_liquidity@ && shared_token_liquidity@
            >= minimum_token_liquidity@ && utilization@ <= maximum_utilization@),
{
    minimum_accounting_liquidity.le(accounting_liquidity) && minimum_token_liquidity.le(
        shared_token_liquidity,
    ) && utilization.le(maximum_utilization)
}

/// Best feasible service-restoration candidate.
pub struct LiquiditySolveResult {
    /// Strict semantic actions.
    pub actions: Vec<V2Action>,
    /// Exact post-action state.
    pub state: Option<SimulationState>,
    /// Complete bounded-search evidence.
    pub certificate: SearchCertificate,
}

/// What a service-restoration result holds.
pub ghost struct LiquidityResultView {
    /// Actions.
    pub actions: Seq<ActionView>,
    /// State after the actions.
    pub state: Option<SimulationView>,
    /// Search evidence.
    pub certificate: CertificateView,
}

impl View for LiquiditySolveResult {
    type V = LiquidityResultView;

    open spec fn view(&self) -> LiquidityResultView {
        LiquidityResultView {
            actions: actions_view(self.actions@),
            state: match self.state {
                Some(state) => Some(state@),
                None => None,
            },
            certificate: self.certificate@,
        }
    }
}

/// A result without a plan.
pub open spec fn empty_liquidity_result(certificate: CertificateView) -> LiquidityResultView {
    LiquidityResultView { actions: Seq::empty(), state: None, certificate }
}

fn empty_result(certificate: SearchCertificate) -> (r: LiquiditySolveResult)
    ensures
        r@ == empty_liquidity_result(certificate@),
{
    let actions: Vec<V2Action> = Vec::new();
    assert(actions_view(actions@) =~= Seq::<ActionView>::empty());
    LiquiditySolveResult { actions, state: None, certificate }
}

struct MaintenanceEndpoint {
    position: PositionKey,
    adapter: AdapterAddress,
    data: Vec<u8>,
    allocation_maximum: U256,
    deallocation_maximum: U256,
    active_destination: bool,
}

/// A position or adapter that maintenance may move assets out of or into.
pub ghost struct EndpointView {
    /// Action key.
    pub position: PositionKey,
    /// Adapter acted through.
    pub adapter: AdapterAddress,
    /// Adapter data.
    pub data: Seq<u8>,
    /// Largest supply.
    pub allocation_maximum: U256,
    /// Largest withdrawal.
    pub deallocation_maximum: U256,
    /// Whether the position is an active destination.
    pub active_destination: bool,
}

impl EndpointView {
    /// Action of the given direction and amount on the endpoint.
    pub open spec fn action(self, kind: ActionKind, amount: U256) -> ActionView {
        ActionView {
            kind,
            position: self.position,
            adapter: self.adapter,
            data: self.data,
            requested: amount,
        }
    }
}

impl View for MaintenanceEndpoint {
    type V = EndpointView;

    closed spec fn view(&self) -> EndpointView {
        EndpointView {
            position: self.position,
            adapter: self.adapter,
            data: self.data@,
            allocation_maximum: self.allocation_maximum,
            deallocation_maximum: self.deallocation_maximum,
            active_destination: self.active_destination,
        }
    }
}

impl MaintenanceEndpoint {
    fn copied(&self) -> (r: MaintenanceEndpoint)
        ensures
            r@ == self@,
    {
        MaintenanceEndpoint {
            position: self.position,
            adapter: self.adapter,
            data: copy_bytes(&self.data),
            allocation_maximum: self.allocation_maximum,
            deallocation_maximum: self.deallocation_maximum,
            active_destination: self.active_destination,
        }
    }

    fn act(&self, kind: ActionKind, assets: U256) -> (r: V2Action)
        ensures
            r@ == self@.action(kind, assets),
    {
        V2Action::build(kind, self.position, self.adapter, copy_bytes(&self.data), assets)
    }
}

spec fn endpoints_view(endpoints: Seq<MaintenanceEndpoint>) -> Seq<EndpointView> {
    Seq::new(endpoints.len(), |i: int| endpoints[i]@)
}

/// A source: an endpoint to withdraw from, or parent idle, with the largest amount it gives.
pub type SourceView = (Option<EndpointView>, U256);

spec fn source_view(source: (Option<MaintenanceEndpoint>, U256)) -> SourceView {
    (
        match source.0 {
            Some(endpoint) => Some(endpoint@),
            None => None,
        },
        source.1,
    )
}

spec fn sources_view(sources: Seq<(Option<MaintenanceEndpoint>, U256)>) -> Seq<SourceView> {
    Seq::new(sources.len(), |i: int| source_view(sources[i]))
}

/// Endpoint of a configured direct position with the given assets.
pub open spec fn direct_endpoint(position: ValidatedPositionConfig, current: U256) -> EndpointView {
    EndpointView {
        position: position.position_key,
        adapter: position.adapter,
        data: market_params_encoding(position.market_params),
        allocation_maximum: action_headroom(position, ActionKind::Allocate, current),
        deallocation_maximum: action_headroom(position, ActionKind::Deallocate, current),
        active_destination: position.mode == MarketMode::Active,
    }
}

/// Endpoints of the configured positions from index `from` on, appended to `done`; absent when
/// projected assets are missing.
pub open spec fn direct_endpoints_from(
    positions: Seq<ValidatedPositionConfig>,
    expected: Seq<(PositionKey, U256)>,
    from: int,
    done: Seq<EndpointView>,
) -> Option<Seq<EndpointView>>
    decreases positions.len() - from,
{
    if from >= positions.len() {
        Some(done)
    } else {
        match value_of(expected, positions[from].position_key) {
            None => None,
            Some(current) => direct_endpoints_from(
                positions,
                expected,
                from + 1,
                done.push(direct_endpoint(positions[from], current)),
            ),
        }
    }
}

fn direct_endpoints(
    positions: &Vec<ValidatedPositionConfig>,
    expected: &OrderedMap<PositionKey, U256>,
) -> (r: Option<Vec<MaintenanceEndpoint>>)
    ensures
        match direct_endpoints_from(positions@, expected@, 0, Seq::empty()) {
            Some(endpoints) => r is Some && endpoints_view(r->0@) == endpoints,
            None => r is None,
        },
{
    let mut endpoints: Vec<MaintenanceEndpoint> = Vec::new();
    assert(endpoints_view(endpoints@) =~= Seq::<EndpointView>::empty());
    let mut i: usize = 0;
    while i < positions.len()
        invariant
            i <= positions.len(),
            direct_endpoints_from(positions@, expected@, 0, Seq::empty())
                == direct_endpoints_from(
                positions@,
                expected@,
                i as int,
                endpoints_view(endpoints@),
            ),
        decreases positions.len() - i,
    {
        let position = positions[i];
        let current = expected.get(position.position_key)?;
        let ghost held = endpoints_view(endpoints@);
        endpoints.push(
            MaintenanceEndpoint {
                position: position.position_key,
                adapter: position.adapter,
                data: encode_adapter_data(&position.market_params),
                allocation_maximum: headroom_of(&position, ActionKind::Allocate, current),
                deallocation_maximum: headroom_of(&position, ActionKind::Deallocate, current),
                active_destination: position.mode == MarketMode::Active,
            },
        );
        assert(endpoints_view(endpoints@) =~= held.push(
            direct_endpoint(positions@[i as int], current),
        ));
        i = i + 1;
    }
    Some(endpoints)
}

/// First endpoint from index `from` on that is the parent's native liquidity path.
pub open spec fn native_path_from(
    endpoints: Seq<EndpointView>,
    snapshot: ExactVaultSnapshot,
    from: int,
) -> Option<EndpointView>
    decreases endpoints.len() - from,
{
    if from >= endpoints.len() {
        None
    } else if endpoints[from].adapter.0 == snapshot.parent.liquidity_adapter
        && endpoints[from].data == snapshot.parent.liquidity_data@ {
        Some(endpoints[from])
    } else {
        native_path_from(endpoints, snapshot, from + 1)
    }
}

/// Endpoint that carries native deposits and withdrawals.
pub open spec fn service_endpoint(
    snapshot: ExactVaultSnapshot,
    vault: ValidatedVaultConfig,
    direct: Seq<EndpointView>,
) -> Option<EndpointView> {
    match (vault.liquidity_adapter, snapshot.liquidity_adapter) {
        (Some(configured), Some(current)) => Some(
            EndpointView {
                position: configured.position_key,
                adapter: configured.address,
                data: Seq::empty(),
                allocation_maximum: smaller(
                    configured.maximum_action_assets,
                    current.max_deposit,
                ),
                deallocation_maximum: smaller(
                    smaller(
                        saturating_difference(
                            current.real_assets,
                            vault.minimum_liquidity_adapter_assets,
                        ),
                        current.max_withdraw,
                    ),
                    configured.maximum_action_assets,
                ),
                active_destination: false,
            },
        ),
        _ => native_path_from(direct, snapshot, 0),
    }
}

fn find_service_endpoint(
    snapshot: &ExactVaultSnapshot,
    vault: &ValidatedVaultConfig,
    direct: &Vec<MaintenanceEndpoint>,
) -> (r: Option<MaintenanceEndpoint>)
    ensures
        match service_endpoint(*snapshot, *vault, endpoints_view(direct@)) {
            Some(endpoint) => r is Some && r->0@ == endpoint,
            None => r is None,
        },
{
    if let (Some(configured), Some(current)) = (vault.liquidity_adapter, snapshot.liquidity_adapter) {
        let data: Vec<u8> = Vec::new();
        assert(data@ =~= Seq::<u8>::empty());
        return Some(
            MaintenanceEndpoint {
                position: configured.position_key,
                adapter: configured.address,
                data,
                allocation_maximum: configured.maximum_action_assets.min(current.max_deposit),
                deallocation_maximum: current.real_assets.saturating_sub(
                    vault.minimum_liquidity_adapter_assets,
                ).min(current.max_withdraw).min(configured.maximum_action_assets),
                active_destination: false,
            },
        );
    }
    let ghost views = endpoints_view(direct@);
    let mut i: usize = 0;
    while i < direct.len()
        invariant
            i <= direct.len(),
            views == endpoints_view(direct@),
            native_path_from(views, *snapshot, 0) == native_path_from(
                views,
                *snapshot,
                i as int,
            ),
            service_endpoint(*snapshot, *vault, endpoints_view(direct@)) == native_path_from(
                views,
                *snapshot,
                0,
            ),
        decreases direct.len() - i,
    {
        assert(views[i as int] == direct@[i as int]@);
        if direct[i].adapter.0 == snapshot.parent.liquidity_adapter && bytes_equal(
            &direct[i].data,
            &snapshot.parent.liquidity_data,
        ) {
            return Some(direct[i].copied());
        }
        i = i + 1;
    }
    None
}

/// Direct endpoints from index `from` on that can give assets, appended to `done`.
pub open spec fn direct_sources_from(
    direct: Seq<EndpointView>,
    from: int,
    done: Seq<SourceView>,
) -> Seq<SourceView>
    decreases direct.len() - from,
{
    if from >= direct.len() {
        done
    } else {
        direct_sources_from(
            direct,
            from + 1,
            if direct[from].deallocation_maximum@ == 0 {
                done
            } else {
                done.push((Some(direct[from]), direct[from].deallocation_maximum))
            },
        )
    }
}

/// Whether a direct endpoint has the given action key.
pub open spec fn holds_position(direct: Seq<EndpointView>, position: PositionKey) -> bool {
    exists|i: int| 0 <= i < direct.len() && (#[trigger] direct[i]).position == position
}

/// Sources of a maintenance plan: idle, direct positions, then the liquidity adapter unless it is
/// one of them.
pub open spec fn maintenance_sources(
    idle: U256,
    direct: Seq<EndpointView>,
    liquidity: EndpointView,
) -> Seq<SourceView> {
    let first: Seq<SourceView> = if idle@ == 0 {
        Seq::empty()
    } else {
        seq![(None, idle)]
    };
    let listed = direct_sources_from(direct, 0, first);
    if liquidity.deallocation_maximum@ != 0 && !holds_position(direct, liquidity.position) {
        listed.push((Some(liquidity), liquidity.deallocation_maximum))
    } else {
        listed
    }
}

fn list_sources(
    idle: U256,
    direct: &Vec<MaintenanceEndpoint>,
    liquidity: &MaintenanceEndpoint,
) -> (r: Vec<(Option<MaintenanceEndpoint>, U256)>)
    ensures
        sources_view(r@) == maintenance_sources(idle, endpoints_view(direct@), liquidity@),
{
    let ghost views = endpoints_view(direct@);
    let mut sources: Vec<(Option<MaintenanceEndpoint>, U256)> = Vec::new();
    if !idle.is_zero() {
        sources.push((None, idle));
    }
    let ghost first: Seq<SourceView> = if idle@ == 0 {
        Seq::empty()
    } else {
        seq![(None, idle)]
    };
    assert(sources_view(sources@) =~= first);
    let mut listed = false;
    let mut i: usize = 0;
    while i < direct.len()
        invariant
            i <= direct.len(),
            views == endpoints_view(direct@),
            listed == (exists|k: int|
                0 <= k < i && (#[trigger] views[k]).position == liquidity@.position),
            direct_sources_from(views, 0, first) == direct_sources_from(
                views,
                i as int,
                sources_view(sources@),
            ),
        decreases direct.len() - i,
    {
        assert(views[i as int] == direct@[i as int]@);
        if direct[i].position == liquidity.position {
            listed = true;
        }
        if !direct[i].deallocation_maximum.is_zero() {
            let ghost held = sources_view(sources@);
            sources.push((Some(direct[i].copied()), direct[i].deallocation_maximum));
            assert(sources_view(sources@) =~= held.push(
                (Some(views[i as int]), views[i as int].deallocation_maximum),
            ));
        }
        i = i + 1;
    }
    if !liquidity.deallocation_maximum.is_zero() && !listed {
        let ghost held = sources_view(sources@);
        sources.push((Some(liquidity.copied()), liquidity.deallocation_maximum));
        assert(sources_view(sources@) =~= held.push(
            (Some(liquidity@), liquidity@.deallocation_maximum),
        ));
    }
    sources
}

/// Active direct endpoints from index `from` on other than the service endpoint that can take
/// assets, appended to `done`.
pub open spec fn direct_destinations_from(
    direct: Seq<EndpointView>,
    liquidity: EndpointView,
    from: int,
    done: Seq<EndpointView>,
) -> Seq<EndpointView>
    decreases direct.len() - from,
{
    if from >= direct.len() {
        done
    } else {
        direct_destinations_from(
            direct,
            liquidity,
            from + 1,
            if direct[from].active_destination && direct[from].position != liquidity.position
                && direct[from].allocation_maximum@ != 0 {
                done.push(direct[from])
            } else {
                done
            },
        )
    }
}

/// Destinations of a maintenance plan: the service endpoint, then active direct positions.
pub open spec fn maintenance_destinations(
    direct: Seq<EndpointView>,
    liquidity: EndpointView,
) -> Seq<EndpointView> {
    direct_destinations_from(
        direct,
        liquidity,
        0,
        if liquidity.allocation_maximum@ == 0 {
            Seq::empty()
        } else {
            seq![liquidity]
        },
    )
}

fn list_destinations(direct: &Vec<MaintenanceEndpoint>, liquidity: &MaintenanceEndpoint) -> (r: Vec<
    MaintenanceEndpoint,
>)
    ensures
        endpoints_view(r@) == maintenance_destinations(endpoints_view(direct@), liquidity@),
{
    let ghost views = endpoints_view(direct@);
    let mut destinations: Vec<MaintenanceEndpoint> = Vec::new();
    if !liquidity.allocation_maximum.is_zero() {
        destinations.push(liquidity.copied());
    }
    let ghost first: Seq<EndpointView> = if liquidity@.allocation_maximum@ == 0 {
        Seq::empty()
    } else {
        seq![liquidity@]
    };
    assert(endpoints_view(destinations@) =~= first);
    let mut i: usize = 0;
    while i < direct.len()
        invariant
            i <= direct.len(),
            views == endpoints_view(direct@),
            direct_destinations_from(views, liquidity@, 0, first) == direct_destinations_from(
                views,
                liquidity@,
                i as int,
                endpoints_view(destinations@),
            ),
        decreases direct.len() - i,
    {
        assert(views[i as int] == direct@[i as int]@);
        if direct[i].active_destination && direct[i].position != liquidity.position
            && !direct[i].allocation_maximum.is_zero() {
            let ghost held = endpoints_view(destinations@);
            destinations.push(direct[i].copied());
            assert(endpoints_view(destinations@) =~= held.push(views[i as int]));
        }
        i = i + 1;
    }
    destinations
}

/// Largest amounts the sources give.
pub open spec fn source_maximums(sources: Seq<SourceView>) -> Seq<U256> {
    Seq::new(sources.len(), |i: int| sources[i].1)
}

/// Largest amounts the destinations take.
pub open spec fn destination_maximums(destinations: Seq<EndpointView>) -> Seq<U256> {
    Seq::new(destinations.len(), |i: int| destinations[i].allocation_maximum)
}

fn list_source_maximums(sources: &Vec<(Option<MaintenanceEndpoint>, U256)>) -> (r: Vec<U256>)
    ensures
        r@ == source_maximums(sources_view(sources@)),
{
    let ghost goal = source_maximums(sources_view(sources@));
    let mut maximums: Vec<U256> = Vec::new();
    let mut i: usize = 0;
    while i < sources.len()
        invariant
            i <= sources.len(),
            goal == source_maximums(sources_view(sources@)),
            maximums@ == goal.subrange(0, i as int),
        decreases sources.len() - i,
    {
        maximums.push(sources[i].1);
        i = i + 1;
        assert(maximums@ =~= goal.subrange(0, i as int));
    }
    assert(maximums@ =~= goal);
    maximums
}

fn list_destination_maximums(destinations: &Vec<MaintenanceEndpoint>) -> (r: Vec<U256>)
    ensures
        r@ == destination_maximums(endpoints_view(destinations@)),
{
    let ghost goal = destination_maximums(endpoints_view(destinations@));
    let mut maximums: Vec<U256> = Vec::new();
    let mut i: usize = 0;
    while i < destinations.len()
        invariant
            i <= destinations.len(),
            goal == destination_maximums(endpoints_view(destinations@)),
            maximums@ == goal.subrange(0, i as int),
        decreases destinations.len() - i,
    {
        maximums.push(destinations[i].allocation_maximum);
        i = i + 1;
        assert(maximums@ =~= goal.subrange(0, i as int));
    }
    assert(maximums@ =~= goal);
    maximums
}

/// Cap headrooms that bound supplies into one destination; absent when a direct position's cap
/// state is incomplete.
pub open spec fn destination_boundaries(
    snapshot: ExactVaultSnapshot,
    projection: ProjectedVaultView,
    vault: ValidatedVaultConfig,
    liquidity: PositionKey,
    destination: PositionKey,
) -> Option<Seq<U256>> {
    if destination == liquidity {
        match snapshot.liquidity_adapter {
            None => Some(Seq::empty()),
            Some(state) => match cap_headroom_spec(
                snapshot,
                projection,
                CapRef { vault: vault.address, id: state.adapter_id },
            ) {
                None => Some(Seq::empty()),
                Some(headroom) => Some(seq![headroom]),
            },
        }
    } else {
        allocation_cap_boundaries_spec(snapshot, projection, destination)
    }
}

fn find_destination_boundaries(
    snapshot: &ExactVaultSnapshot,
    projection: &ProjectedVaultView,
    vault: &ValidatedVaultConfig,
    liquidity: PositionKey,
    destination: PositionKey,
) -> (r: Option<Vec<U256>>)
    ensures
        match destination_boundaries(*snapshot, *projection, *vault, liquidity, destination) {
            Some(boundaries) => r is Some && r->0@ == boundaries,
            None => r is None,
        },
{
    if destination == liquidity {
        let mut boundaries: Vec<U256> = Vec::new();
        if let Some(state) = &snapshot.liquidity_adapter {
            if let Some(headroom) = projected_cap_headroom(
                snapshot,
                projection,
                CapRef { vault: vault.address, id: state.adapter_id },
            ) {
                boundaries.push(headroom);
                assert(boundaries@ =~= seq![headroom]);
            }
        }
        Some(boundaries)
    } else {
        allocation_cap_boundaries(snapshot, projection, destination)
    }
}

/// Boundaries of the destinations from index `from` on: all appended to `movement`, and one list
/// per destination.
pub open spec fn gathered_boundaries_from(
    snapshot: ExactVaultSnapshot,
    projection: ProjectedVaultView,
    vault: ValidatedVaultConfig,
    liquidity: PositionKey,
    destinations: Seq<EndpointView>,
    from: int,
    movement: Seq<U256>,
    lists: Seq<Seq<U256>>,
) -> Option<(Seq<U256>, Seq<Seq<U256>>)>
    decreases destinations.len() - from,
{
    if from >= destinations.len() {
        Some((movement, lists))
    } else {
        match destination_boundaries(
            snapshot,
            projection,
            vault,
            liquidity,
            destinations[from].position,
        ) {
            None => None,
            Some(boundaries) => gathered_boundaries_from(
                snapshot,
                projection,
                vault,
                liquidity,
                destinations,
                from + 1,
                movement + boundaries,
                lists.push(boundaries),
            ),
        }
    }
}

fn append_amounts(amounts: &mut Vec<U256>, more: &Vec<U256>)
    ensures
        final(amounts)@ == old(amounts)@ + more@,
{
    let mut i: usize = 0;
    while i < more.len()
        invariant
            i <= more.len(),
            amounts@ == old(amounts)@ + more@.subrange(0, i as int),
        decreases more.len() - i,
    {
        amounts.push(more[i]);
        i = i + 1;
        assert(amounts@ =~= old(amounts)@ + more@.subrange(0, i as int));
    }
    assert(more@.subrange(0, i as int) =~= more@);
}

fn gather_boundaries(
    snapshot: &ExactVaultSnapshot,
    projection: &ProjectedVaultView,
    vault: &ValidatedVaultConfig,
    liquidity: PositionKey,
    destinations: &Vec<MaintenanceEndpoint>,
    movement: Vec<U256>,
) -> (r: Option<(Vec<U256>, Vec<Vec<U256>>)>)
    ensures
        match gathered_boundaries_from(
            *snapshot,
            *projection,
            *vault,
            liquidity,
            endpoints_view(destinations@),
            0,
            movement@,
            Seq::empty(),
        ) {
            Some((all, lists)) => r is Some && (r->0).0@ == all && rows_view((r->0).1@) == lists
                && (r->0).1.len() == destinations.len(),
            None => r is None,
        },
{
    let ghost views = endpoints_view(destinations@);
    let ghost goal = gathered_boundaries_from(
        *snapshot,
        *projection,
        *vault,
        liquidity,
        views,
        0,
        movement@,
        Seq::empty(),
    );
    let mut all = movement;
    let mut lists: Vec<Vec<U256>> = Vec::new();
    assert(rows_view(lists@) =~= Seq::<Seq<U256>>::empty());
    let mut i: usize = 0;
    while i < destinations.len()
        invariant
            i <= destinations.len(),
            lists.len() == i,
            views == endpoints_view(destinations@),
            goal == gathered_boundaries_from(
                *snapshot,
                *projection,
                *vault,
                liquidity,
                views,
                i as int,
                all@,
                rows_view(lists@),
            ),
            goal == gathered_boundaries_from(
                *snapshot,
                *projection,
                *vault,
                liquidity,
                endpoints_view(destinations@),
                0,
                movement@,
                Seq::empty(),
            ),
        decreases destinations.len() - i,
    {
        assert(views[i as int] == destinations@[i as int]@);
        let boundaries = find_destination_boundaries(
            snapshot,
            projection,
            vault,
            liquidity,
            destinations[i].position,
        )?;
        append_amounts(&mut all, &boundaries);
        let ghost held = rows_view(lists@);
        let ghost added = boundaries@;
        lists.push(boundaries);
        assert(rows_view(lists@) =~= held.push(added));
        i = i + 1;
    }
    Some((all, lists))
}

/// Lattice of every destination, over the shared and its own boundaries.
pub open spec fn destination_lattices(
    maximums: Seq<U256>,
    minimum_action: U256,
    movement: Seq<U256>,
    lists: Seq<Seq<U256>>,
    limit: usize,
) -> Seq<Seq<U256>> {
    Seq::new(
        maximums.len(),
        |i: int| lattice_amounts(minimum_action, maximums[i], movement + lists[i], limit),
    )
}

fn build_destination_lattices(
    maximums: &Vec<U256>,
    minimum_action: U256,
    movement: &Vec<U256>,
    lists: &Vec<Vec<U256>>,
    limit: usize,
    identity: &mut Vec<u8>,
) -> (r: Vec<Vec<U256>>)
    requires
        lists.len() == maximums.len(),
    ensures
        rows_view(r@) == destination_lattices(
            maximums@,
            minimum_action,
            movement@,
            rows_view(lists@),
            limit,
        ),
        r.len() == maximums.len(),
        final(identity)@ == lattice_hashes_from(
            destination_lattices(maximums@, minimum_action, movement@, rows_view(lists@), limit),
            0,
            old(identity)@,
        ),
{
    let ghost goal = destination_lattices(
        maximums@,
        minimum_action,
        movement@,
        rows_view(lists@),
        limit,
    );
    let mut lattices: Vec<Vec<U256>> = Vec::new();
    assert(rows_view(lattices@) =~= goal.subrange(0, 0));
    let mut i: usize = 0;
    while i < maximums.len()
        invariant
            i <= maximums.len(),
            lists.len() == maximums.len(),
            lattices.len() == i,
            goal == destination_lattices(
                maximums@,
                minimum_action,
                movement@,
                rows_view(lists@),
                limit,
            ),
            rows_view(lattices@) == goal.subrange(0, i as int),
            lattice_hashes_from(goal, 0, old(identity)@) == lattice_hashes_from(
                goal,
                i as int,
                identity@,
            ),
        decreases maximums.len() - i,
    {
        let mut prioritized = copy_row(movement);
        append_amounts(&mut prioritized, &lists[i]);
        assert(rows_view(lists@)[i as int] == lists@[i as int]@);
        let lattice = build_candidate_lattice(minimum_action, maximums[i], &prioritized, limit);
        append_bytes(identity, &lattice.hash.to_bytes());
        let ghost held = rows_view(lattices@);
        let ghost added = lattice.amounts@;
        lattices.push(lattice.amounts);
        i = i + 1;
        assert(rows_view(lattices@) =~= held.push(added));
        assert(rows_view(lattices@) =~= goal.subrange(0, i as int));
    }
    assert(goal.subrange(0, i as int) =~= goal);
    lattices
}

/// Whether some position would both give and take assets.
pub open spec fn overlaps(
    sources: Seq<SourceView>,
    source_amounts: Seq<U256>,
    destinations: Seq<EndpointView>,
    destination_amounts: Seq<U256>,
) -> bool {
    exists|i: int, j: int|
        0 <= i < sources.len() && i < source_amounts.len() && 0 <= j < destinations.len() && j
            < destination_amounts.len() && #[trigger] meets(
            sources[i],
            source_amounts[i],
            destinations[j],
            destination_amounts[j],
        )
}

/// Whether a used source and a used destination are one position.
pub open spec fn meets(
    source: SourceView,
    source_amount: U256,
    destination: EndpointView,
    destination_amount: U256,
) -> bool {
    source_amount@ != 0 && destination_amount@ != 0 && match source.0 {
        Some(endpoint) => endpoint.position == destination.position,
        None => false,
    }
}

fn any_overlap(
    sources: &Vec<(Option<MaintenanceEndpoint>, U256)>,
    source_amounts: &Vec<U256>,
    destinations: &Vec<MaintenanceEndpoint>,
    destination_amounts: &Vec<U256>,
) -> (r: bool)
    ensures
        r == overlaps(
            sources_view(sources@),
            source_amounts@,
            endpoints_view(destinations@),
            destination_amounts@,
        ),
{
    let ghost from = sources_view(sources@);
    let ghost to = endpoints_view(destinations@);
    let mut i: usize = 0;
    while i < sources.len() && i < source_amounts.len()
        invariant
            i <= sources.len(),
            i <= source_amounts.len(),
            from == sources_view(sources@),
            to == endpoints_view(destinations@),
            forall|a: int, b: int|
                0 <= a < i && 0 <= b < to.len() && b < destination_amounts.len()
                    ==> !#[trigger] meets(
                    from[a],
                    source_amounts@[a],
                    to[b],
                    destination_amounts@[b],
                ),
        decreases sources.len() - i,
    {
        assert(from[i as int] == source_view(sources@[i as int]));
        if !source_amounts[i].is_zero() {
            if let Some(source) = &sources[i].0 {
                let mut j: usize = 0;
                while j < destinations.len() && j < destination_amounts.len()
                    invariant
                        i < sources.len(),
                        i < source_amounts.len(),
                        j <= destinations.len(),
                        j <= destination_amounts.len(),
                        from == sources_view(sources@),
                        to == endpoints_view(destinations@),
                        from[i as int].0 == Some(source@),
                        source_amounts@[i as int]@ != 0,
                        forall|b: int|
                            0 <= b < j ==> !#[trigger] meets(
                                from[i as int],
                                source_amounts@[i as int],
                                to[b],
                                destination_amounts@[b],
                            ),
                    decreases destinations.len() - j,
                {
                    assert(to[j as int] == destinations@[j as int]@);
                    if !destination_amounts[j].is_zero() && destinations[j].position
                        == source.position {
                        assert(meets(
                            from[i as int],
                            source_amounts@[i as int],
                            to[j as int],
                            destination_amounts@[j as int],
                        ));
                        return true;
                    }
                    j = j + 1;
                }
            }
        }
        i = i + 1;
    }
    false
}

/// Withdrawals for the nonzero amounts from index `from` on, appended to `done`; idle needs none.
pub open spec fn source_actions_from(
    sources: Seq<SourceView>,
    amounts: Seq<U256>,
    from: int,
    done: Seq<ActionView>,
) -> Seq<ActionView>
    decreases sources.len() - from,
{
    if from >= sources.len() || from >= amounts.len() {
        done
    } else {
        source_actions_from(
            sources,
            amounts,
            from + 1,
            match sources[from].0 {
                Some(endpoint) => if amounts[from]@ != 0 {
                    done.push(endpoint.action(ActionKind::Deallocate, amounts[from]))
                } else {
                    done
                },
                None => done,
            },
        )
    }
}

/// Supplies for the nonzero amounts from index `from` on, appended to `done`.
pub open spec fn destination_actions_from(
    destinations: Seq<EndpointView>,
    amounts: Seq<U256>,
    from: int,
    done: Seq<ActionView>,
) -> Seq<ActionView>
    decreases destinations.len() - from,
{
    if from >= destinations.len() || from >= amounts.len() {
        done
    } else {
        destination_actions_from(
            destinations,
            amounts,
            from + 1,
            if amounts[from]@ != 0 {
                done.push(destinations[from].action(ActionKind::Allocate, amounts[from]))
            } else {
                done
            },
        )
    }
}

fn maintenance_actions(
    sources: &Vec<(Option<MaintenanceEndpoint>, U256)>,
    source_amounts: &Vec<U256>,
    destinations: &Vec<MaintenanceEndpoint>,
    destination_amounts: &Vec<U256>,
) -> (r: Vec<V2Action>)
    ensures
        actions_view(r@) == destination_actions_from(
            endpoints_view(destinations@),
            destination_amounts@,
            0,
            source_actions_from(sources_view(sources@), source_amounts@, 0, Seq::empty()),
        ),
{
    let ghost from = sources_view(sources@);
    let ghost to = endpoints_view(destinations@);
    let mut actions: Vec<V2Action> = Vec::new();
    assert(actions_view(actions@) =~= Seq::<ActionView>::empty());
    let mut i: usize = 0;
    while i < sources.len() && i < source_amounts.len()
        invariant
            i <= sources.len(),
            from == sources_view(sources@),
            source_actions_from(from, source_amounts@, 0, Seq::empty()) == source_actions_from(
                from,
                source_amounts@,
                i as int,
                actions_view(actions@),
            ),
        decreases sources.len() - i,
    {
        assert(from[i as int] == source_view(sources@[i as int]));
        if !source_amounts[i].is_zero() {
            if let Some(source) = &sources[i].0 {
                let ghost held = actions_view(actions@);
                actions.push(source.act(ActionKind::Deallocate, source_amounts[i]));
                assert(actions_view(actions@) =~= held.push(
                    source@.action(ActionKind::Deallocate, source_amounts@[i as int]),
                ));
            }
        }
        i = i + 1;
    }
    let ghost exits = actions_view(actions@);
    let mut j: usize = 0;
    while j < destinations.len() && j < destination_amounts.len()
        invariant
            j <= destinations.len(),
            to == endpoints_view(destinations@),
            destination_actions_from(to, destination_amounts@, 0, exits)
                == destination_actions_from(
                to,
                destination_amounts@,
                j as int,
                actions_view(actions@),
            ),
        decreases destinations.len() - j,
    {
        assert(to[j as int] == destinations@[j as int]@);
        if !destination_amounts[j].is_zero() {
            let ghost held = actions_view(actions@);
            actions.push(destinations[j].act(ActionKind::Allocate, destination_amounts[j]));
            assert(actions_view(actions@) =~= held.push(
                to[j as int].action(ActionKind::Allocate, destination_amounts@[j as int]),
            ));
        }
        j = j + 1;
    }
    actions
}

/// Frozen inputs of one maintenance search.
pub ghost struct MaintenanceProblem {
    /// Exact snapshot.
    pub snapshot: ExactVaultSnapshot,
    /// Inclusion projection.
    pub projection: ProjectedVaultView,
    /// Vault policy.
    pub vault: ValidatedVaultConfig,
    /// Solver bounds.
    pub solver: SolverConfigCanonical,
    /// Action-count bound.
    pub maximum_actions: usize,
    /// Sources.
    pub sources: Seq<SourceView>,
    /// Destinations.
    pub destinations: Seq<EndpointView>,
    /// Amount lattice of every source.
    pub source_lattices: Seq<Seq<U256>>,
    /// Amount lattice of every destination.
    pub destination_lattices: Seq<Seq<U256>>,
}

/// A restoration found.
pub ghost struct RestorationView {
    /// Total movement.
    pub movement: U256,
    /// Actions.
    pub actions: Seq<ActionView>,
    /// State after the actions.
    pub state: SimulationView,
}

/// Progress of one maintenance search.
pub ghost struct MaintenanceProgress {
    /// Search evidence.
    pub certificate: CertificateView,
    /// Best restoration so far.
    pub best: Option<RestorationView>,
}

/// One assignment of amounts: a feasible restoration, or the reason it is rejected.
pub open spec fn maintenance_assessment(
    problem: MaintenanceProblem,
    amount: U256,
    source_amounts: Seq<U256>,
    destination_amounts: Seq<U256>,
) -> Result<RestorationView, RejectionReason> {
    if overlaps(problem.sources, source_amounts, problem.destinations, destination_amounts) {
        Err(RejectionReason::Simulation)
    } else {
        let actions = destination_actions_from(
            problem.destinations,
            destination_amounts,
            0,
            source_actions_from(problem.sources, source_amounts, 0, Seq::empty()),
        );
        if actions.len() == 0 || actions.len() > problem.maximum_actions {
            Err(RejectionReason::Service)
        } else {
            match simulation_spec(problem.snapshot, problem.projection, problem.vault, actions) {
                Err(_) => Err(RejectionReason::Simulation),
                Ok(state) => if state.immediate_loss_assets@
                    > problem.vault.maximum_immediate_rebalance_loss_assets@ {
                    Err(RejectionReason::ImmediateLoss)
                } else if service_constraints_spec(state, problem.snapshot, problem.vault) is Err {
                    Err(RejectionReason::Service)
                } else {
                    Ok(RestorationView { movement: amount, actions, state })
                },
            }
        }
    }
}

/// Whether a restoration replaces the best one: less movement, then fewer actions.
pub open spec fn restoration_improves(
    best: Option<RestorationView>,
    candidate: RestorationView,
) -> bool {
    match best {
        None => true,
        Some(current) => candidate.movement@ < current.movement@ || (candidate.movement@
            == current.movement@ && candidate.actions.len() < current.actions.len()),
    }
}

/// Progress after one more node.
pub open spec fn maintenance_evaluated(
    problem: MaintenanceProblem,
    amount: U256,
    source_amounts: Seq<U256>,
    destination_amounts: Seq<U256>,
    progress: MaintenanceProgress,
) -> MaintenanceProgress {
    let counted = progress.certificate.counted();
    match maintenance_assessment(problem, amount, source_amounts, destination_amounts) {
        Err(reason) => MaintenanceProgress { certificate: counted.rejected(reason), ..progress },
        Ok(candidate) => if restoration_improves(progress.best, candidate) {
            MaintenanceProgress { certificate: counted, best: Some(candidate) }
        } else {
            MaintenanceProgress { certificate: counted, ..progress }
        },
    }
}

/// Progress over the pairs of distributions from `(i, j)` on, and whether the node limit stopped
/// the search.
pub open spec fn maintenance_pairs_from(
    problem: MaintenanceProblem,
    amount: U256,
    source_rows: Seq<Seq<U256>>,
    destination_rows: Seq<Seq<U256>>,
    i: int,
    j: int,
    progress: MaintenanceProgress,
) -> (MaintenanceProgress, bool)
    decreases source_rows.len() - i, destination_rows.len() - j,
{
    if i >= source_rows.len() {
        (progress, false)
    } else if j >= destination_rows.len() {
        maintenance_pairs_from(
            problem,
            amount,
            source_rows,
            destination_rows,
            i + 1,
            0,
            progress,
        )
    } else if progress.certificate.nodes_evaluated >= progress.certificate.node_limit {
        (MaintenanceProgress { certificate: progress.certificate.incomplete(), ..progress }, true)
    } else {
        maintenance_pairs_from(
            problem,
            amount,
            source_rows,
            destination_rows,
            i,
            j + 1,
            maintenance_evaluated(problem, amount, source_rows[i], destination_rows[j], progress),
        )
    }
}

/// Whether an amount is worth searching: executable, and not above the best movement.
pub open spec fn amount_searched(
    problem: MaintenanceProblem,
    amount: U256,
    best: Option<RestorationView>,
) -> bool {
    amount@ >= problem.vault.minimum_action_assets@ && match best {
        Some(current) => current.movement@ >= amount@,
        None => true,
    }
}

/// Progress over the movement amounts from index `from` on.
pub open spec fn maintenance_amounts_from(
    problem: MaintenanceProblem,
    amounts: Seq<U256>,
    from: int,
    progress: MaintenanceProgress,
) -> MaintenanceProgress
    decreases amounts.len() - from,
{
    if from >= amounts.len() {
        progress
    } else if !amount_searched(problem, amounts[from], progress.best) {
        maintenance_amounts_from(problem, amounts, from + 1, progress)
    } else {
        let source_rows = bounded_distributions_spec(
            source_maximums(problem.sources),
            problem.source_lattices,
            amounts[from],
            problem.vault.minimum_action_assets,
            enumeration_limit(progress.certificate, problem.solver.maximum_source_sets),
        );
        let destination_rows = bounded_distributions_spec(
            destination_maximums(problem.destinations),
            problem.destination_lattices,
            amounts[from],
            problem.vault.minimum_action_assets,
            enumeration_limit(progress.certificate, problem.solver.maximum_destination_sets),
        );
        match (source_rows, destination_rows) {
            (Some(sources), Some(destinations)) => {
                let (next, stopped) = maintenance_pairs_from(
                    problem,
                    amounts[from],
                    sources,
                    destinations,
                    0,
                    0,
                    progress,
                );
                if stopped {
                    next
                } else {
                    maintenance_amounts_from(problem, amounts, from + 1, next)
                }
            },
            _ => MaintenanceProgress {
                certificate: progress.certificate.incomplete(),
                ..progress
            },
        }
    }
}

/// What a maintenance search starts from.
pub ghost enum MaintenanceSetup {
    /// An input is incomplete.
    Incomplete,
    /// Service is met, or nothing can move.
    NothingToSearch,
    /// Frozen problem, movement amounts and lattice identity.
    Search(MaintenanceProblem, Seq<U256>, Seq<u8>),
}

/// Frozen problem over known endpoints.
pub open spec fn maintenance_problem(
    snapshot: ExactVaultSnapshot,
    projection: ProjectedVaultView,
    vault: ValidatedVaultConfig,
    solver: SolverConfigCanonical,
    maximum_actions: usize,
    idle: U256,
    liquidity: EndpointView,
    liquidity_assets: U256,
    sources: Seq<SourceView>,
    destinations: Seq<EndpointView>,
) -> MaintenanceSetup {
    match (
        checked_total_from(source_maximums(sources), 0, u256(0)),
        checked_total_from(destination_maximums(destinations), 0, u256(0)),
    ) {
        (Some(source_total), Some(destination_total)) => {
            let maximum = smaller(source_total, destination_total);
            if maximum@ < vault.minimum_action_assets@ {
                MaintenanceSetup::NothingToSearch
            } else {
                let boundaries = seq![
                    saturating_difference(
                        vault.minimum_deposit_headroom_assets,
                        projection.vault.max_executable_deposit_assets,
                    ),
                    saturating_difference(
                        vault.minimum_atomic_exit_coverage_assets,
                        projection.vault.atomic_exit_coverage_assets,
                    ),
                    saturating_difference(vault.minimum_liquidity_adapter_assets, liquidity_assets),
                    idle,
                    source_total,
                    destination_total,
                    maximum,
                ];
                match gathered_boundaries_from(
                    snapshot,
                    projection,
                    vault,
                    liquidity.position,
                    destinations,
                    0,
                    boundaries,
                    Seq::empty(),
                ) {
                    None => MaintenanceSetup::Incomplete,
                    Some((movement, lists)) => {
                        let limit = solver.maximum_amount_candidates_per_position;
                        let minimum = vault.minimum_action_assets;
                        let amounts = lattice_amounts(minimum, maximum, movement, limit);
                        let source_lattices = lattices_of(
                            source_maximums(sources),
                            minimum,
                            movement,
                            limit,
                        );
                        let destination_side = destination_lattices(
                            destination_maximums(destinations),
                            minimum,
                            movement,
                            lists,
                            limit,
                        );
                        MaintenanceSetup::Search(
                            MaintenanceProblem {
                                snapshot,
                                projection,
                                vault,
                                solver,
                                maximum_actions,
                                sources,
                                destinations,
                                source_lattices,
                                destination_lattices: destination_side,
                            },
                            amounts,
                            lattice_hashes_from(
                                destination_side,
                                0,
                                lattice_hashes_from(
                                    source_lattices,
                                    0,
                                    big_endian(lattice_hash(amounts)@, 32),
                                ),
                            ),
                        )
                    },
                }
            }
        },
        _ => MaintenanceSetup::Incomplete,
    }
}

/// Decides whether a maintenance search is needed and possible, and freezes it.
pub open spec fn maintenance_setup(
    snapshot: ExactVaultSnapshot,
    projection: ProjectedVaultView,
    vault: ValidatedVaultConfig,
    solver: SolverConfigCanonical,
    maximum_actions: usize,
) -> MaintenanceSetup {
    match initial_state(snapshot, projection) {
        Err(_) => MaintenanceSetup::Incomplete,
        Ok(base) => if service_constraints_spec(base, snapshot, vault) is Ok {
            MaintenanceSetup::NothingToSearch
        } else {
            match (
                unreserved_idle_spec(base),
                direct_endpoints_from(
                    vault.positions@,
                    projection.vault.position_expected_assets@,
                    0,
                    Seq::empty(),
                ),
            ) {
                (Ok(idle), Some(direct)) => match service_endpoint(snapshot, vault, direct) {
                    None => MaintenanceSetup::Incomplete,
                    Some(liquidity) => match position_assets(base, liquidity.position) {
                        None => MaintenanceSetup::Incomplete,
                        Some(assets) => {
                            let sources = maintenance_sources(idle, direct, liquidity);
                            let destinations = maintenance_destinations(direct, liquidity);
                            if sources.len() == 0 || destinations.len() == 0 || maximum_actions
                                == 0 {
                                MaintenanceSetup::NothingToSearch
                            } else {
                                maintenance_problem(
                                    snapshot,
                                    projection,
                                    vault,
                                    solver,
                                    maximum_actions,
                                    idle,
                                    liquidity,
                                    assets,
                                    sources,
                                    destinations,
                                )
                            }
                        },
                    },
                },
                _ => MaintenanceSetup::Incomplete,
            }
        },
    }
}

/// Bounded exact service restoration.
pub open spec fn maintenance_solve_spec(
    snapshot: ExactVaultSnapshot,
    projection: ProjectedVaultView,
    vault: ValidatedVaultConfig,
    solver: SolverConfigCanonical,
    maximum_actions: usize,
) -> LiquidityResultView {
    let fresh = CertificateView::begun(solver.maximum_nodes);
    match maintenance_setup(snapshot, projection, vault, solver, maximum_actions) {
        MaintenanceSetup::Incomplete => empty_liquidity_result(fresh.incomplete()),
        MaintenanceSetup::NothingToSearch => empty_liquidity_result(
            fresh.over_lattice(b256(keccak256_digest(Seq::empty()))),
        ),
        MaintenanceSetup::Search(problem, amounts, identity) => {
            let searched = maintenance_amounts_from(
                problem,
                amounts,
                0,
                MaintenanceProgress { certificate: fresh, best: None },
            );
            let certificate = searched.certificate.over_lattice(
                b256(keccak256_digest(identity)),
            );
            match searched.best {
                Some(best) => LiquidityResultView {
                    actions: best.actions,
                    state: Some(best.state),
                    certificate,
                },
                None => empty_liquidity_result(certificate),
            }
        },
    }
}

struct Restoration {
    movement: U256,
    actions: Vec<V2Action>,
    state: SimulationState,
}

impl View for Restoration {
    type V = RestorationView;

    closed spec fn view(&self) -> RestorationView {
        RestorationView {
            movement: self.movement,
            actions: actions_view(self.actions@),
            state: self.state@,
        }
    }
}

spec fn best_view(best: Option<Restoration>) -> Option<RestorationView> {
    match best {
        Some(restoration) => Some(restoration@),
        None => None,
    }
}

struct MaintenanceSearch<'a> {
    snapshot: &'a ExactVaultSnapshot,
    projection: &'a ProjectedVaultView,
    vault: &'a ValidatedVaultConfig,
    solver: &'a SolverConfigCanonical,
    maximum_actions: usize,
    sources: Vec<(Option<MaintenanceEndpoint>, U256)>,
    destinations: Vec<MaintenanceEndpoint>,
    source_maximums: Vec<U256>,
    destination_maximums: Vec<U256>,
    source_lattices: Vec<Vec<U256>>,
    destination_lattices: Vec<Vec<U256>>,
}

impl<'a> MaintenanceSearch<'a> {
    spec fn problem(&self) -> MaintenanceProblem {
        MaintenanceProblem {
            snapshot: *self.snapshot,
            projection: *self.projection,
            vault: *self.vault,
            solver: *self.solver,
            maximum_actions: self.maximum_actions,
            sources: sources_view(self.sources@),
            destinations: endpoints_view(self.destinations@),
            source_lattices: rows_view(self.source_lattices@),
            destination_lattices: rows_view(self.destination_lattices@),
        }
    }

    spec fn wf(&self) -> bool {
        &&& self.source_maximums@ == source_maximums(sources_view(self.sources@))
        &&& self.destination_maximums@ == destination_maximums(endpoints_view(self.destinations@))
        &&& self.source_lattices.len() == self.source_maximums.len()
        &&& self.destination_lattices.len() == self.destination_maximums.len()
    }

    fn assess(&self, amount: U256, source_amounts: &Vec<U256>, destination_amounts: &Vec<U256>) -> (r:
        Result<Restoration, RejectionReason>)
        ensures
            match maintenance_assessment(
                self.problem(),
                amount,
                source_amounts@,
                destination_amounts@,
            ) {
                Ok(restoration) => r is Ok && r->Ok_0@ == restoration,
                Err(reason) => r is Err && r->Err_0 == reason,
            },
    {
        if any_overlap(&self.sources, source_amounts, &self.destinations, destination_amounts) {
            return Err(RejectionReason::Simulation);
        }
        let actions = maintenance_actions(
            &self.sources,
            source_amounts,
            &self.destinations,
            destination_amounts,
        );
        assert(actions_view(actions@).len() == actions.len());
        if actions.len() == 0 || actions.len() > self.maximum_actions {
            return Err(RejectionReason::Service);
        }
        let state = match simulate_actions(self.snapshot, self.projection, self.vault, &actions) {
            Ok(state) => state,
            Err(_) => return Err(RejectionReason::Simulation),
        };
        if self.vault.maximum_immediate_rebalance_loss_assets.lt(state.immediate_loss_assets) {
            return Err(RejectionReason::ImmediateLoss);
        }
        match state.validate_service_constraints(self.snapshot, self.vault) {
            Ok(_) => Ok(Restoration { movement: amount, actions, state }),
            Err(_) => Err(RejectionReason::Service),
        }
    }

    fn search_pairs(
        &self,
        amount: U256,
        source_rows: &Vec<Vec<U256>>,
        destination_rows: &Vec<Vec<U256>>,
        certificate: &mut SearchCertificate,
        best: &mut Option<Restoration>,
    ) -> (stopped: bool)
        ensures
            (
                MaintenanceProgress {
                    certificate: final(certificate)@,
                    best: best_view(*final(best)),
                },
                stopped,
            ) == maintenance_pairs_from(
                self.problem(),
                amount,
                rows_view(source_rows@),
                rows_view(destination_rows@),
                0,
                0,
                MaintenanceProgress {
                    certificate: old(certificate)@,
                    best: best_view(*old(best)),
                },
            ),
    {
        let ghost problem = self.problem();
        let ghost from = rows_view(source_rows@);
        let ghost to = rows_view(destination_rows@);
        let ghost goal = maintenance_pairs_from(
            problem,
            amount,
            from,
            to,
            0,
            0,
            MaintenanceProgress { certificate: certificate@, best: best_view(*best) },
        );
        let mut i: usize = 0;
        while i < source_rows.len()
            invariant
                i <= source_rows.len(),
                problem == self.problem(),
                from == rows_view(source_rows@),
                to == rows_view(destination_rows@),
                goal == maintenance_pairs_from(
                    self.problem(),
                    amount,
                    rows_view(source_rows@),
                    rows_view(destination_rows@),
                    0,
                    0,
                    MaintenanceProgress {
                        certificate: old(certificate)@,
                        best: best_view(*old(best)),
                    },
                ),
                goal == maintenance_pairs_from(
                    problem,
                    amount,
                    from,
                    to,
                    i as int,
                    0,
                    MaintenanceProgress { certificate: certificate@, best: best_view(*best) },
                ),
            decreases source_rows.len() - i,
        {
            let mut j: usize = 0;
            while j < destination_rows.len()
                invariant
                    i < source_rows.len(),
                    j <= destination_rows.len(),
                    problem == self.problem(),
                    from == rows_view(source_rows@),
                    to == rows_view(destination_rows@),
                    goal == maintenance_pairs_from(
                        self.problem(),
                        amount,
                        rows_view(source_rows@),
                        rows_view(destination_rows@),
                        0,
                        0,
                        MaintenanceProgress {
                            certificate: old(certificate)@,
                            best: best_view(*old(best)),
                        },
                    ),
                    goal == maintenance_pairs_from(
                        problem,
                        amount,
                        from,
                        to,
                        i as int,
                        j as int,
                        MaintenanceProgress { certificate: certificate@, best: best_view(*best) },
                    ),
                decreases destination_rows.len() - j,
            {
                if certificate.nodes_evaluated >= certificate.node_limit {
                    certificate.search_complete = false;
                    return true;
                }
                certificate.nodes_evaluated = certificate.nodes_evaluated + 1;
                assert(from[i as int] == source_rows@[i as int]@);
                assert(to[j as int] == destination_rows@[j as int]@);
                match self.assess(amount, &source_rows[i], &destination_rows[j]) {
                    Ok(candidate) => {
                        assert(candidate@.actions.len() == candidate.actions.len());
                        let improves = match &*best {
                            None => true,
                            Some(current) => {
                                assert(current@.actions.len() == current.actions.len());
                                amount.lt(current.movement) || (amount.le(current.movement)
                                    && current.movement.le(amount) && candidate.actions.len()
                                    < current.actions.len())
                            },
                        };
                        if improves {
                            *best = Some(candidate);
                        }
                    },
                    Err(reason) => {
                        let _counted = certificate.reject(reason);
                    },
                }
                j = j + 1;
            }
            i = i + 1;
        }
        false
    }

    fn search_amounts(
        &self,
        amounts: &Vec<U256>,
        certificate: &mut SearchCertificate,
        best: &mut Option<Restoration>,
    )
        requires
            self.wf(),
        ensures
            (MaintenanceProgress {
                certificate: final(certificate)@,
                best: best_view(*final(best)),
            }) == maintenance_amounts_from(
                self.problem(),
                amounts@,
                0,
                MaintenanceProgress {
                    certificate: old(certificate)@,
                    best: best_view(*old(best)),
                },
            ),
    {
        let ghost goal = maintenance_amounts_from(
            self.problem(),
            amounts@,
            0,
            MaintenanceProgress { certificate: certificate@, best: best_view(*best) },
        );
        let mut i: usize = 0;
        while i < amounts.len()
            invariant
                i <= amounts.len(),
                self.wf(),
                goal == maintenance_amounts_from(
                    self.problem(),
                    amounts@,
                    0,
                    MaintenanceProgress {
                        certificate: old(certificate)@,
                        best: best_view(*old(best)),
                    },
                ),
                goal == maintenance_amounts_from(
                    self.problem(),
                    amounts@,
                    i as int,
                    MaintenanceProgress { certificate: certificate@, best: best_view(*best) },
                ),
            decreases amounts.len() - i,
        {
            let amount = amounts[i];
            let worthwhile = self.vault.minimum_action_assets.le(amount) && match &*best {
                Some(current) => amount.le(current.movement),
                None => true,
            };
            if worthwhile {
                let source_rows = match bounded_distributions(
                    &self.source_maximums,
                    &self.source_lattices,
                    amount,
                    self.vault.minimum_action_assets,
                    nodes_left(certificate, self.solver.maximum_source_sets),
                ) {
                    Some(rows) => rows,
                    None => {
                        certificate.search_complete = false;
                        return;
                    },
                };
                let destination_rows = match bounded_distributions(
                    &self.destination_maximums,
                    &self.destination_lattices,
                    amount,
                    self.vault.minimum_action_assets,
                    nodes_left(certificate, self.solver.maximum_destination_sets),
                ) {
                    Some(rows) => rows,
                    None => {
                        certificate.search_complete = false;
                        return;
                    },
                };
                if self.search_pairs(amount, &source_rows, &destination_rows, certificate, best) {
                    return;
                }
            }
            i = i + 1;
        }
    }
}

enum Prepared<'a> {
    Incomplete,
    NothingToSearch,
    Search(MaintenanceSearch<'a>, Vec<U256>, Vec<u8>),
}

spec fn prepared_as(prepared: Prepared, setup: MaintenanceSetup) -> bool {
    match (prepared, setup) {
        (Prepared::Incomplete, MaintenanceSetup::Incomplete) => true,
        (Prepared::NothingToSearch, MaintenanceSetup::NothingToSearch) => true,
        (
            Prepared::Search(search, amounts, identity),
            MaintenanceSetup::Search(problem, goal_amounts, goal_identity),
        ) => search.wf() && search.problem() == problem && amounts@ == goal_amounts && identity@
            == goal_identity,
        _ => false,
    }
}

fn prepare_search<'a>(
    snapshot: &'a ExactVaultSnapshot,
    projection: &'a ProjectedVaultView,
    vault: &'a ValidatedVaultConfig,
    solver: &'a SolverConfigCanonical,
    maximum_actions: usize,
    idle: U256,
    liquidity: &MaintenanceEndpoint,
    liquidity_assets: U256,
    sources: Vec<(Option<MaintenanceEndpoint>, U256)>,
    destinations: Vec<MaintenanceEndpoint>,
) -> (r: Prepared<'a>)
    ensures
        prepared_as(
            r,
            maintenance_problem(
                *snapshot,
                *projection,
                *vault,
                *solver,
                maximum_actions,
                idle,
                liquidity@,
                liquidity_assets,
                sources_view(sources@),
                endpoints_view(destinations@),
            ),
        ),
{
    let source_limits = list_source_maximums(&sources);
    let destination_limits = list_destination_maximums(&destinations);
    assert(destination_limits.len() == destinations.len());
    let source_total = match checked_total(&source_limits) {
        Some(total) => total,
        None => return Prepared::Incomplete,
    };
    let destination_total = match checked_total(&destination_limits) {
        Some(total) => total,
        None => return Prepared::Incomplete,
    };
    let maximum = source_total.min(destination_total);
    let minimum = vault.minimum_action_assets;
    if maximum.lt(minimum) {
        return Prepared::NothingToSearch;
    }
    let deposit_deficit = vault.minimum_deposit_headroom_assets.saturating_sub(
        projection.vault.max_executable_deposit_assets,
    );
    let exit_deficit = vault.minimum_atomic_exit_coverage_assets.saturating_sub(
        projection.vault.atomic_exit_coverage_assets,
    );
    let adapter_deficit = vault.minimum_liquidity_adapter_assets.saturating_sub(liquidity_assets);
    let boundaries: Vec<U256> = vec![
        deposit_deficit,
        exit_deficit,
        adapter_deficit,
        idle,
        source_total,
        destination_total,
        maximum,
    ];
    assert(boundaries@ =~= seq![
        deposit_deficit,
        exit_deficit,
        adapter_deficit,
        idle,
        source_total,
        destination_total,
        maximum,
    ]);
    let (movement, lists) = match gather_boundaries(
        snapshot,
        projection,
        vault,
        liquidity.position,
        &destinations,
        boundaries,
    ) {
        Some(gathered) => gathered,
        None => return Prepared::Incomplete,
    };
    let limit: usize = solver.maximum_amount_candidates_per_position;
    let lattice = build_candidate_lattice(minimum, maximum, &movement, limit);
    let mut identity: Vec<u8> = lattice.hash.to_bytes();
    let source_lattices = build_lattices(&source_limits, minimum, &movement, limit, &mut identity);
    let destination_side = build_destination_lattices(
        &destination_limits,
        minimum,
        &movement,
        &lists,
        limit,
        &mut identity,
    );
    Prepared::Search(
        MaintenanceSearch {
            snapshot,
            projection,
            vault,
            solver,
            maximum_actions,
            sources,
            destinations,
            source_maximums: source_limits,
            destination_maximums: destination_limits,
            source_lattices,
            destination_lattices: destination_side,
        },
        lattice.amounts,
        identity,
    )
}

fn prepare<'a>(
    snapshot: &'a ExactVaultSnapshot,
    projection: &'a ProjectedVaultView,
    vault: &'a ValidatedVaultConfig,
    solver: &'a SolverConfigCanonical,
    maximum_actions: usize,
) -> (r: Prepared<'a>)
    ensures
        prepared_as(
            r,
            maintenance_setup(*snapshot, *projection, *vault, *solver, maximum_actions),
        ),
{
    let base = match SimulationState::from_projection(snapshot, projection) {
        Ok(state) => state,
        Err(_) => return Prepared::Incomplete,
    };
    if base.validate_service_constraints(snapshot, vault).is_ok() {
        return Prepared::NothingToSearch;
    }
    let idle = match base.unreserved_idle() {
        Ok(value) => value,
        Err(_) => return Prepared::Incomplete,
    };
    let direct = match direct_endpoints(
        &vault.positions,
        &projection.vault.position_expected_assets,
    ) {
        Some(endpoints) => endpoints,
        None => return Prepared::Incomplete,
    };
    let liquidity = match find_service_endpoint(snapshot, vault, &direct) {
        Some(endpoint) => endpoint,
        None => return Prepared::Incomplete,
    };
    let liquidity_assets = match base.position_expected_assets(liquidity.position) {
        Some(assets) => assets,
        None => return Prepared::Incomplete,
    };
    let sources = list_sources(idle, &direct, &liquidity);
    let destinations = list_destinations(&direct, &liquidity);
    assert(sources_view(sources@).len() == sources.len());
    assert(endpoints_view(destinations@).len() == destinations.len());
    if sources.len() == 0 || destinations.len() == 0 || maximum_actions == 0 {
        return Prepared::NothingToSearch;
    }
    prepare_search(
        snapshot,
        projection,
        vault,
        solver,
        maximum_actions,
        idle,
        &liquidity,
        liquidity_assets,
        sources,
        destinations,
    )
}

/// Builds a bounded exact service-restoration plan. Depending on the violated
/// service value, this can replenish the liquidity adapter or move assets out
/// of its binding deposit-cap path.
pub fn solve_liquidity_maintenance(
    snapshot: &ExactVaultSnapshot,
    projection: &ProjectedVaultView,
    vault: &ValidatedVaultConfig,
    solver: &SolverConfigCanonical,
    maximum_actions: usize,
) -> (r: LiquiditySolveResult)
    ensures
        r@ == maintenance_solve_spec(*snapshot, *projection, *vault, *solver, maximum_actions),
{
    broadcast use group_b256;

    let mut certificate = SearchCertificate::begin(solver.maximum_nodes);
    match prepare(snapshot, projection, vault, solver, maximum_actions) {
        Prepared::Incomplete => {
            certificate.search_complete = false;
            empty_result(certificate)
        },
        Prepared::NothingToSearch => {
            let nothing: Vec<u8> = Vec::new();
            assert(nothing@ =~= Seq::<u8>::empty());
            certificate.candidate_lattice_hash = keccak256(nothing.as_slice());
            empty_result(certificate)
        },
        Prepared::Search(search, amounts, identity) => {
            let mut best: Option<Restoration> = None;
            search.search_amounts(&amounts, &mut certificate, &mut best);
            certificate.candidate_lattice_hash = keccak256(identity.as_slice());
            match best {
                Some(restoration) => LiquiditySolveResult {
                    actions: restoration.actions,
                    state: Some(restoration.state),
                    certificate,
                },
                None => empty_result(certificate),
            }
        },
    }
}

spec fn maintenance_sound(problem: MaintenanceProblem, progress: MaintenanceProgress) -> bool {
    &&& progress.certificate.nodes_evaluated <= progress.certificate.node_limit
    &&& match progress.best {
        Some(best) => {
            &&& simulation_spec(problem.snapshot, problem.projection, problem.vault, best.actions)
                == Ok::<SimulationView, SimulationError>(best.state)
            &&& service_constraints_spec(best.state, problem.snapshot, problem.vault) is Ok
            &&& best.state.immediate_loss_assets@
                <= problem.vault.maximum_immediate_rebalance_loss_assets@
            &&& 0 < best.actions.len() <= problem.maximum_actions
        },
        None => true,
    }
}

proof fn lemma_maintenance_pairs(
    problem: MaintenanceProblem,
    amount: U256,
    source_rows: Seq<Seq<U256>>,
    destination_rows: Seq<Seq<U256>>,
    i: int,
    j: int,
    progress: MaintenanceProgress,
)
    requires
        0 <= i <= source_rows.len(),
        0 <= j <= destination_rows.len(),
        maintenance_sound(problem, progress),
    ensures
        ({
            let (next, stopped) = maintenance_pairs_from(
                problem,
                amount,
                source_rows,
                destination_rows,
                i,
                j,
                progress,
            );
            &&& maintenance_sound(problem, next)
            &&& next.certificate.node_limit == progress.certificate.node_limit
            &&& stopped ==> !next.certificate.search_complete
        }),
    decreases source_rows.len() - i, destination_rows.len() - j,
{
    if i < source_rows.len() {
        if j >= destination_rows.len() {
            lemma_maintenance_pairs(
                problem,
                amount,
                source_rows,
                destination_rows,
                i + 1,
                0,
                progress,
            );
        } else if progress.certificate.nodes_evaluated < progress.certificate.node_limit {
            lemma_maintenance_pairs(
                problem,
                amount,
                source_rows,
                destination_rows,
                i,
                j + 1,
                maintenance_evaluated(
                    problem,
                    amount,
                    source_rows[i],
                    destination_rows[j],
                    progress,
                ),
            );
        }
    }
}

proof fn lemma_maintenance_amounts(
    problem: MaintenanceProblem,
    amounts: Seq<U256>,
    from: int,
    progress: MaintenanceProgress,
)
    requires
        0 <= from <= amounts.len(),
        maintenance_sound(problem, progress),
    ensures
        ({
            let next = maintenance_amounts_from(problem, amounts, from, progress);
            maintenance_sound(problem, next) && next.certificate.node_limit
                == progress.certificate.node_limit
        }),
    decreases amounts.len() - from,
{
    if from < amounts.len() {
        if !amount_searched(problem, amounts[from], progress.best) {
            lemma_maintenance_amounts(problem, amounts, from + 1, progress);
        } else {
            let source_rows = bounded_distributions_spec(
                source_maximums(problem.sources),
                problem.source_lattices,
                amounts[from],
                problem.vault.minimum_action_assets,
                enumeration_limit(progress.certificate, problem.solver.maximum_source_sets),
            );
            let destination_rows = bounded_distributions_spec(
                destination_maximums(problem.destinations),
                problem.destination_lattices,
                amounts[from],
                problem.vault.minimum_action_assets,
                enumeration_limit(progress.certificate, problem.solver.maximum_destination_sets),
            );
            if source_rows is Some && destination_rows is Some {
                lemma_maintenance_pairs(
                    problem,
                    amounts[from],
                    source_rows->0,
                    destination_rows->0,
                    0,
                    0,
                    progress,
                );
                let (next, stopped) = maintenance_pairs_from(
                    problem,
                    amounts[from],
                    source_rows->0,
                    destination_rows->0,
                    0,
                    0,
                    progress,
                );
                if !stopped {
                    lemma_maintenance_amounts(problem, amounts, from + 1, next);
                }
            }
        }
    }
}

/// A maintenance search evaluates at most the configured nodes, and a plan it returns holds at most
/// the allowed actions, simulates to the returned state, restores every service floor and stays
/// within the immediate-loss bound. Nothing is planned while service already holds.
pub proof fn maintenance_is_bounded_and_restores_service(
    snapshot: ExactVaultSnapshot,
    projection: ProjectedVaultView,
    vault: ValidatedVaultConfig,
    solver: SolverConfigCanonical,
    maximum_actions: usize,
)
    ensures
        ({
            let result = maintenance_solve_spec(
                snapshot,
                projection,
                vault,
                solver,
                maximum_actions,
            );
            &&& result.certificate.nodes_evaluated <= solver.maximum_nodes
            &&& result.actions.len() <= maximum_actions
            &&& result.state is Some ==> simulation_spec(
                snapshot,
                projection,
                vault,
                result.actions,
            ) == Ok::<SimulationView, SimulationError>(result.state->0)
            &&& result.state is Some ==> service_constraints_spec(
                result.state->0,
                snapshot,
                vault,
            ) is Ok
            &&& result.state is Some ==> result.state->0.immediate_loss_assets@
                <= vault.maximum_immediate_rebalance_loss_assets@
            &&& (initial_state(snapshot, projection) is Ok && service_constraints_spec(
                initial_state(snapshot, projection)->Ok_0,
                snapshot,
                vault,
            ) is Ok) ==> result.actions.len() == 0 && result.certificate.search_complete
        }),
{
    if let MaintenanceSetup::Search(problem, amounts, _) = maintenance_setup(
        snapshot,
        projection,
        vault,
        solver,
        maximum_actions,
    ) {
        lemma_maintenance_amounts(
            problem,
            amounts,
            0,
            MaintenanceProgress {
                certificate: CertificateView::begun(solver.maximum_nodes),
                best: None,
            },
        );
    }
}

} // verus!
