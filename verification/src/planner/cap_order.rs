//! Deterministic bounded allocation-order search.

use vstd::prelude::*;

use crate::collections::{has_key, value_of, with_key, OrderedSet};
use crate::config::ValidatedVaultConfig;
use crate::domain::{
    actions_view, copy_actions, ActionKind, ActionView, ExactVaultSnapshot, ProjectedVaultView,
    V2Action,
};
use crate::planner::candidates::append_bytes;
use crate::planner::objective::lexicographically_before;
use crate::planner::simulator::{
    simulate_actions, simulation_spec, SimulationError, SimulationState, SimulationView,
};
use crate::primitives::{
    b256, big_endian, group_b256, keccak256, keccak256_digest, Address, B256, U256,
};

verus! {

/// Complete bounded allocation-order search result.
pub struct AllocationOrderResult {
    /// Every feasible strict action ordering in deterministic depth-first order.
    pub feasible: Vec<(Vec<V2Action>, SimulationState)>,
    /// Search nodes evaluated.
    pub nodes_evaluated: u64,
    /// Whether every permutation was explored.
    pub complete: bool,
}

/// A feasible ordering and the state it leaves.
pub type FeasibleOrder = (Seq<ActionView>, SimulationView);

/// What feasible orderings hold.
pub open spec fn orders_view(orders: Seq<(Vec<V2Action>, SimulationState)>) -> Seq<FeasibleOrder> {
    Seq::new(orders.len(), |i: int| (actions_view(orders[i].0@), orders[i].1@))
}

/// Ordering tuple of an action: loan token, market, then adapter; zero for an unknown position.
pub open spec fn action_key_spec(snapshot: ExactVaultSnapshot, action: ActionView) -> Seq<int> {
    match value_of(snapshot.positions@, action.position) {
        Some(state) => seq![
            state.market_params.loan_token@ as int,
            state.market_id.0@ as int,
            action.adapter.0@ as int,
        ],
        None => seq![0, 0, action.adapter.0@ as int],
    }
}

fn action_key(snapshot: &ExactVaultSnapshot, action: &V2Action) -> (r: (Address, B256, Address))
    ensures
        seq![r.0@ as int, r.1@ as int, r.2@ as int] == action_key_spec(*snapshot, action@),
{
    broadcast use group_b256, crate::primitives::group_address;

    let key = match snapshot.positions.get(action.position()) {
        Some(state) => (state.market_params.loan_token, state.market_id.0, action.adapter().0),
        None => (Address::zero(), B256::zero(), action.adapter().0),
    };
    assert(seq![key.0@ as int, key.1@ as int, key.2@ as int] =~= action_key_spec(
        *snapshot,
        action@,
    ));
    key
}

fn key_before(snapshot: &ExactVaultSnapshot, left: &V2Action, right: &V2Action) -> (r: bool)
    ensures
        r == lexicographically_before(
            action_key_spec(*snapshot, left@),
            action_key_spec(*snapshot, right@),
        ),
{
    let a = action_key(snapshot, left);
    let b = action_key(snapshot, right);
    proof {
        let x = action_key_spec(*snapshot, left@);
        let y = action_key_spec(*snapshot, right@);
        reveal_with_fuel(lexicographically_before, 4);
        assert(x.drop_first()[0] == x[1] && y.drop_first()[0] == y[1]);
        assert(x.drop_first().drop_first()[0] == x[2]);
        assert(y.drop_first().drop_first()[0] == y[2]);
        assert(x[0] == a.0@ && x[1] == a.1@ && x[2] == a.2@);
        assert(y[0] == b.0@ && y[1] == b.1@ && y[2] == b.2@);
    }
    if a.0.lt(b.0) {
        return true;
    }
    if b.0.lt(a.0) {
        return false;
    }
    if a.1.word().lt(b.1.word()) {
        return true;
    }
    if b.1.word().lt(a.1.word()) {
        return false;
    }
    a.2.lt(b.2)
}

/// Index of the first action from `from` on whose key comes after the key of `action`.
pub open spec fn place_from(
    snapshot: ExactVaultSnapshot,
    sorted: Seq<ActionView>,
    action: ActionView,
    from: int,
) -> int
    decreases sorted.len() - from,
{
    if from >= sorted.len() {
        sorted.len() as int
    } else if lexicographically_before(
        action_key_spec(snapshot, action),
        action_key_spec(snapshot, sorted[from]),
    ) {
        from
    } else {
        place_from(snapshot, sorted, action, from + 1)
    }
}

/// The actions from index `from` on inserted one by one, each after those with no larger key.
pub open spec fn canonical_from(
    snapshot: ExactVaultSnapshot,
    actions: Seq<ActionView>,
    from: int,
    sorted: Seq<ActionView>,
) -> Seq<ActionView>
    decreases actions.len() - from,
{
    if from >= actions.len() {
        sorted
    } else {
        canonical_from(
            snapshot,
            actions,
            from + 1,
            sorted.insert(place_from(snapshot, sorted, actions[from], 0), actions[from]),
        )
    }
}

/// The actions in canonical order, stable among equal keys.
pub open spec fn canonical_order(snapshot: ExactVaultSnapshot, actions: Seq<ActionView>) -> Seq<
    ActionView,
> {
    canonical_from(snapshot, actions, 0, Seq::empty())
}

fn sort_actions(snapshot: &ExactVaultSnapshot, actions: &Vec<V2Action>) -> (r: Vec<V2Action>)
    ensures
        actions_view(r@) == canonical_order(*snapshot, actions_view(actions@)),
{
    let ghost views = actions_view(actions@);
    let mut sorted: Vec<V2Action> = Vec::new();
    assert(actions_view(sorted@) =~= Seq::<ActionView>::empty());
    let mut i: usize = 0;
    while i < actions.len()
        invariant
            i <= actions.len(),
            views == actions_view(actions@),
            sorted.len() == i,
            canonical_order(*snapshot, views) == canonical_from(
                *snapshot,
                views,
                i as int,
                actions_view(sorted@),
            ),
        decreases actions.len() - i,
    {
        let ghost held = actions_view(sorted@);
        let mut at: usize = 0;
        while at < sorted.len() && !key_before(snapshot, &actions[i], &sorted[at])
            invariant
                at <= sorted.len(),
                i < actions.len(),
                views == actions_view(actions@),
                held == actions_view(sorted@),
                place_from(*snapshot, held, views[i as int], 0) == place_from(
                    *snapshot,
                    held,
                    views[i as int],
                    at as int,
                ),
            decreases sorted.len() - at,
        {
            at = at + 1;
        }
        sorted.insert(at, actions[i].clone());
        assert(actions_view(sorted@) =~= held.insert(at as int, views[i as int]));
        i = i + 1;
    }
    sorted
}

proof fn lemma_place(
    snapshot: ExactVaultSnapshot,
    sorted: Seq<ActionView>,
    action: ActionView,
    from: int,
)
    requires
        0 <= from <= sorted.len(),
    ensures
        from <= place_from(snapshot, sorted, action, from) <= sorted.len(),
    decreases sorted.len() - from,
{
    if from < sorted.len() && !lexicographically_before(
        action_key_spec(snapshot, action),
        action_key_spec(snapshot, sorted[from]),
    ) {
        lemma_place(snapshot, sorted, action, from + 1);
    }
}

proof fn lemma_canonical_multiset(
    snapshot: ExactVaultSnapshot,
    actions: Seq<ActionView>,
    from: int,
    sorted: Seq<ActionView>,
)
    requires
        0 <= from <= actions.len(),
    ensures
        canonical_from(snapshot, actions, from, sorted).to_multiset() == sorted.to_multiset().add(
            actions.skip(from).to_multiset(),
        ),
    decreases actions.len() - from,
{
    broadcast use vstd::seq_lib::group_to_multiset_ensures;

    if from < actions.len() {
        let at = place_from(snapshot, sorted, actions[from], 0);
        lemma_place(snapshot, sorted, actions[from], 0);
        let next = sorted.insert(at, actions[from]);
        lemma_canonical_multiset(snapshot, actions, from + 1, next);
        assert(next.to_multiset() =~= sorted.to_multiset().insert(actions[from]));
        assert(actions.skip(from) =~= seq![actions[from]] + actions.skip(from + 1));
        vstd::seq_lib::lemma_multiset_commutative(seq![actions[from]], actions.skip(from + 1));
        assert(seq![actions[from]].to_multiset() =~= vstd::multiset::Multiset::singleton(
            actions[from],
        )) by {
            assert(seq![actions[from]] =~= Seq::<ActionView>::empty().push(actions[from]));
        }
        assert(next.to_multiset().add(actions.skip(from + 1).to_multiset())
            =~= sorted.to_multiset().add(actions.skip(from).to_multiset()));
    } else {
        assert(actions.skip(from) =~= Seq::<ActionView>::empty());
        assert(sorted.to_multiset() =~= sorted.to_multiset().add(
            Seq::<ActionView>::empty().to_multiset(),
        ));
    }
}

/// Canonical order loses, adds and repeats no action.
pub proof fn canonical_order_is_a_permutation(
    snapshot: ExactVaultSnapshot,
    actions: Seq<ActionView>,
)
    ensures
        canonical_order(snapshot, actions).to_multiset() == actions.to_multiset(),
{
    broadcast use vstd::seq_lib::group_to_multiset_ensures;

    lemma_canonical_multiset(snapshot, actions, 0, Seq::empty());
    assert(actions.skip(0) =~= actions);
    assert(Seq::<ActionView>::empty().to_multiset().add(actions.to_multiset())
        =~= actions.to_multiset());
}

/// 8-byte big-endian words of the indices from `from` on, appended to `done`.
pub open spec fn index_words_from(prefix: Seq<usize>, from: int, done: Seq<u8>) -> Seq<u8>
    decreases prefix.len() - from,
{
    if from >= prefix.len() {
        done
    } else {
        index_words_from(prefix, from + 1, done + big_endian(prefix[from] as nat, 8))
    }
}

/// Identity of a search prefix.
pub open spec fn prefix_hash(prefix: Seq<usize>) -> B256 {
    b256(keccak256_digest(index_words_from(prefix, 0, Seq::empty())))
}

fn hash_prefix(prefix: &Vec<usize>) -> (r: B256)
    ensures
        r == prefix_hash(prefix@),
{
    broadcast use group_b256;

    let mut encoded: Vec<u8> = Vec::new();
    let mut i: usize = 0;
    while i < prefix.len()
        invariant
            i <= prefix.len(),
            index_words_from(prefix@, 0, Seq::empty()) == index_words_from(
                prefix@,
                i as int,
                encoded@,
            ),
        decreases prefix.len() - i,
    {
        broadcast use crate::primitives::group_u256;

        append_bytes(&mut encoded, &U256::from_u64(prefix[i] as u64).low_bytes(8));
        i = i + 1;
    }
    keccak256(encoded.as_slice())
}

/// The selected allocations in prefix order.
pub open spec fn selected_actions(allocations: Seq<ActionView>, prefix: Seq<usize>) -> Seq<
    ActionView,
> {
    Seq::new(prefix.len(), |i: int| allocations[prefix[i] as int])
}

/// Fixed inputs of one search.
pub ghost struct OrderProblem {
    /// Snapshot simulated against.
    pub snapshot: ExactVaultSnapshot,
    /// Projection simulated against.
    pub projection: ProjectedVaultView,
    /// Vault configuration.
    pub config: ValidatedVaultConfig,
    /// Canonical deallocations.
    pub deallocations: Seq<ActionView>,
    /// Canonical allocations.
    pub allocations: Seq<ActionView>,
    /// Hard node limit.
    pub node_limit: u64,
}

/// Progress of one search.
pub ghost struct OrderProgress {
    /// Nodes evaluated.
    pub nodes: u64,
    /// Whether nothing was cut off.
    pub complete: bool,
    /// Identities of visited prefixes.
    pub seen: Seq<B256>,
    /// Feasible orderings found.
    pub feasible: Seq<FeasibleOrder>,
}

impl OrderProgress {
    /// Progress after simulating one complete ordering.
    pub open spec fn evaluated(self, problem: OrderProblem, prefix: Seq<usize>) -> OrderProgress {
        let actions = problem.deallocations + selected_actions(problem.allocations, prefix);
        match simulation_spec(problem.snapshot, problem.projection, problem.config, actions) {
            Ok(state) => OrderProgress { feasible: self.feasible.push((actions, state)), ..self },
            Err(_) => self,
        }
    }
}

/// Depth-first visit of a prefix with the given remaining indices.
pub open spec fn visited(
    problem: OrderProblem,
    progress: OrderProgress,
    prefix: Seq<usize>,
    remaining: Seq<usize>,
) -> OrderProgress
    decreases remaining.len(), remaining.len() + 1,
{
    if progress.nodes >= problem.node_limit {
        OrderProgress { complete: false, ..progress }
    } else {
        let counted = OrderProgress { nodes: (progress.nodes + 1) as u64, ..progress };
        let identity = prefix_hash(prefix);
        if has_key(counted.seen, identity) {
            counted
        } else {
            let marked = OrderProgress { seen: with_key(counted.seen, identity), ..counted };
            if remaining.len() == 0 {
                marked.evaluated(problem, prefix)
            } else {
                choices_visited(problem, marked, prefix, remaining, 0)
            }
        }
    }
}

/// Visits of the remaining indices from position `from` on, until one is cut off.
pub open spec fn choices_visited(
    problem: OrderProblem,
    progress: OrderProgress,
    prefix: Seq<usize>,
    remaining: Seq<usize>,
    from: int,
) -> OrderProgress
    decreases remaining.len(), remaining.len() - from,
{
    if from < 0 || from >= remaining.len() {
        progress
    } else {
        let next = visited(
            problem,
            progress,
            prefix.push(remaining[from]),
            remaining.remove(from),
        );
        if !next.complete {
            next
        } else {
            choices_visited(problem, next, prefix, remaining, from + 1)
        }
    }
}

struct Search<'a> {
    snapshot: &'a ExactVaultSnapshot,
    projection: &'a ProjectedVaultView,
    config: &'a ValidatedVaultConfig,
    deallocations: &'a Vec<V2Action>,
    allocations: &'a Vec<V2Action>,
    node_limit: u64,
    nodes: u64,
    complete: bool,
    seen_prefixes: OrderedSet<B256>,
    feasible: Vec<(Vec<V2Action>, SimulationState)>,
}

impl<'a> Search<'a> {
    spec fn problem(&self) -> OrderProblem {
        OrderProblem {
            snapshot: *self.snapshot,
            projection: *self.projection,
            config: *self.config,
            deallocations: actions_view(self.deallocations@),
            allocations: actions_view(self.allocations@),
            node_limit: self.node_limit,
        }
    }

    spec fn progress(&self) -> OrderProgress {
        OrderProgress {
            nodes: self.nodes,
            complete: self.complete,
            seen: self.seen_prefixes@,
            feasible: orders_view(self.feasible@),
        }
    }

    fn evaluate(&mut self, prefix: &Vec<usize>)
        requires
            forall|i: int| 0 <= i < prefix.len() ==> (#[trigger] prefix@[i]) < old(
                self,
            ).allocations.len(),
        ensures
            final(self).problem() == old(self).problem(),
            final(self).allocations == old(self).allocations,
            final(self).progress() == old(self).progress().evaluated(old(self).problem(), prefix@),
    {
        let mut actions = copy_actions(self.deallocations);
        let ghost head = actions_view(self.deallocations@);
        let ghost tail = selected_actions(actions_view(self.allocations@), prefix@);
        assert(actions_view(actions@).len() == actions.len());
        assert(actions_view(actions@) =~= head + tail.subrange(0, 0));
        let mut i: usize = 0;
        while i < prefix.len()
            invariant
                i <= prefix.len(),
                forall|k: int| 0 <= k < prefix.len() ==> (#[trigger] prefix@[k])
                    < self.allocations.len(),
                tail == selected_actions(actions_view(self.allocations@), prefix@),
                actions_view(actions@) == head + tail.subrange(0, i as int),
                actions.len() == head.len() + i,
            decreases prefix.len() - i,
        {
            let ghost held = actions_view(actions@);
            let index: usize = prefix[i];
            actions.push(self.allocations[index].clone());
            assert(actions_view(actions@) =~= held.push(tail[i as int]));
            i = i + 1;
            assert(actions_view(actions@) =~= head + tail.subrange(0, i as int));
        }
        assert(tail.subrange(0, i as int) =~= tail);
        match simulate_actions(self.snapshot, self.projection, self.config, &actions) {
            Ok(state) => {
                let ghost earlier = orders_view(self.feasible@);
                let ghost found = (actions_view(actions@), state@);
                self.feasible.push((actions, state));
                assert(orders_view(self.feasible@) =~= earlier.push(found));
            },
            Err(_) => {},
        }
    }

    fn visit(&mut self, prefix: &Vec<usize>, remaining: &Vec<usize>)
        requires
            forall|i: int| 0 <= i < prefix.len() ==> (#[trigger] prefix@[i]) < old(
                self,
            ).allocations.len(),
            forall|i: int| 0 <= i < remaining.len() ==> (#[trigger] remaining@[i]) < old(
                self,
            ).allocations.len(),
        ensures
            final(self).problem() == old(self).problem(),
            final(self).allocations == old(self).allocations,
            final(self).progress() == visited(
                old(self).problem(),
                old(self).progress(),
                prefix@,
                remaining@,
            ),
        decreases remaining.len(),
    {
        if self.nodes >= self.node_limit {
            self.complete = false;
            return;
        }
        self.nodes = self.nodes + 1;
        if !self.seen_prefixes.insert(hash_prefix(prefix)) {
            return;
        }
        if remaining.len() == 0 {
            self.evaluate(prefix);
            return;
        }
        let ghost problem = self.problem();
        let ghost goal = choices_visited(problem, self.progress(), prefix@, remaining@, 0);
        let mut from: usize = 0;
        while from < remaining.len()
            invariant
                from <= remaining.len(),
                self.problem() == problem,
                self.allocations == old(self).allocations,
                problem == old(self).problem(),
                goal == visited(old(self).problem(), old(self).progress(), prefix@, remaining@),
                goal == choices_visited(problem, self.progress(), prefix@, remaining@, from as int),
                forall|i: int| 0 <= i < prefix.len() ==> (#[trigger] prefix@[i])
                    < self.allocations.len(),
                forall|i: int| 0 <= i < remaining.len() ==> (#[trigger] remaining@[i])
                    < self.allocations.len(),
            decreases remaining.len() - from,
        {
            let mut chosen: Vec<usize> = Vec::new();
            let mut i: usize = 0;
            while i < prefix.len()
                invariant
                    i <= prefix.len(),
                    chosen@ == prefix@.subrange(0, i as int),
                decreases prefix.len() - i,
            {
                chosen.push(prefix[i]);
                i = i + 1;
                assert(chosen@ =~= prefix@.subrange(0, i as int));
            }
            chosen.push(remaining[from]);
            assert(chosen@ =~= prefix@.push(remaining@[from as int]));
            let mut left: Vec<usize> = Vec::new();
            let mut k: usize = 0;
            while k < remaining.len()
                invariant
                    k <= remaining.len(),
                    from < remaining.len(),
                    left@ == (if k <= from {
                        remaining@.subrange(0, k as int)
                    } else {
                        remaining@.remove(from as int).subrange(0, k - 1)
                    }),
                decreases remaining.len() - k,
            {
                if k != from {
                    left.push(remaining[k]);
                }
                k = k + 1;
                assert(left@ =~= (if k <= from {
                    remaining@.subrange(0, k as int)
                } else {
                    remaining@.remove(from as int).subrange(0, k - 1)
                }));
            }
            assert(left@ =~= remaining@.remove(from as int));
            self.visit(&chosen, &left);
            if !self.complete {
                return;
            }
            from = from + 1;
        }
    }
}

/// Progress before the first node.
pub open spec fn unstarted() -> OrderProgress {
    OrderProgress { nodes: 0, complete: true, seen: Seq::empty(), feasible: Seq::empty() }
}

/// Progress after the whole bounded search.
pub open spec fn order_search(
    snapshot: ExactVaultSnapshot,
    projection: ProjectedVaultView,
    config: ValidatedVaultConfig,
    deallocations: Seq<ActionView>,
    allocations: Seq<ActionView>,
    node_limit: u64,
) -> OrderProgress {
    visited(
        OrderProblem {
            snapshot,
            projection,
            config,
            deallocations: canonical_order(snapshot, deallocations),
            allocations: canonical_order(snapshot, allocations),
            node_limit,
        },
        unstarted(),
        Seq::empty(),
        Seq::new(allocations.len(), |i: int| i as usize),
    )
}

/// Whether every action has the given direction.
pub open spec fn all_of_kind(actions: Seq<ActionView>, kind: ActionKind) -> bool {
    forall|i: int| 0 <= i < actions.len() ==> (#[trigger] actions[i]).kind == kind
}

fn each_is(actions: &Vec<V2Action>, kind: ActionKind) -> (r: bool)
    ensures
        r == all_of_kind(actions_view(actions@), kind),
{
    let mut i: usize = 0;
    while i < actions.len()
        invariant
            i <= actions.len(),
            forall|k: int| 0 <= k < i ==> (#[trigger] actions_view(actions@)[k]).kind == kind,
        decreases actions.len() - i,
    {
        if actions[i].kind() != kind {
            assert(actions_view(actions@)[i as int].kind != kind);
            return false;
        }
        i = i + 1;
    }
    true
}

/// Searches allocation permutations after canonical deallocations.
pub fn search_allocation_orders(
    snapshot: &ExactVaultSnapshot,
    projection: &ProjectedVaultView,
    config: &ValidatedVaultConfig,
    deallocations: &Vec<V2Action>,
    allocations: &Vec<V2Action>,
    node_limit: u64,
) -> (r: Result<AllocationOrderResult, SimulationError>)
    ensures
        ({
            let exits = actions_view(deallocations@);
            let entries = actions_view(allocations@);
            if !all_of_kind(exits, ActionKind::Deallocate) || !all_of_kind(
                entries,
                ActionKind::Allocate,
            ) {
                r is Err && r->Err_0 == SimulationError::InvalidAction
            } else {
                let found = order_search(
                    *snapshot,
                    *projection,
                    *config,
                    exits,
                    entries,
                    node_limit,
                );
                r is Ok && orders_view(r->Ok_0.feasible@) == found.feasible
                    && r->Ok_0.nodes_evaluated == found.nodes && r->Ok_0.complete == found.complete
            }
        }),
{
    if !each_is(deallocations, ActionKind::Deallocate) || !each_is(
        allocations,
        ActionKind::Allocate,
    ) {
        return Err(SimulationError::InvalidAction);
    }
    let canonical_deallocations = sort_actions(snapshot, deallocations);
    let canonical_allocations = sort_actions(snapshot, allocations);
    proof {
        let views = actions_view(allocations@);
        canonical_order_is_a_permutation(*snapshot, views);
        vstd::seq_lib::to_multiset_len(views);
        vstd::seq_lib::to_multiset_len(canonical_order(*snapshot, views));
        assert(canonical_order(*snapshot, views).len() == views.len());
        assert(actions_view(canonical_allocations@).len() == canonical_allocations.len());
    }
    let mut indices: Vec<usize> = Vec::new();
    let mut i: usize = 0;
    while i < allocations.len()
        invariant
            i <= allocations.len(),
            indices@ == Seq::new(i as nat, |k: int| k as usize),
        decreases allocations.len() - i,
    {
        indices.push(i);
        i = i + 1;
        assert(indices@ =~= Seq::new(i as nat, |k: int| k as usize));
    }
    let mut search = Search {
        snapshot,
        projection,
        config,
        deallocations: &canonical_deallocations,
        allocations: &canonical_allocations,
        node_limit,
        nodes: 0,
        complete: true,
        seen_prefixes: OrderedSet::new(),
        feasible: Vec::new(),
    };
    assert(orders_view(search.feasible@) =~= Seq::<FeasibleOrder>::empty());
    let prefix: Vec<usize> = Vec::new();
    search.visit(&prefix, &indices);
    Ok(
        AllocationOrderResult {
            feasible: search.feasible,
            nodes_evaluated: search.nodes,
            complete: search.complete,
        },
    )
}

/// Whether every ordering found is one that simulates to the state recorded with it.
pub open spec fn orders_simulate(problem: OrderProblem, progress: OrderProgress) -> bool {
    forall|i: int|
        0 <= i < progress.feasible.len() ==> simulation_spec(
            problem.snapshot,
            problem.projection,
            problem.config,
            (#[trigger] progress.feasible[i]).0,
        ) == Ok::<SimulationView, SimulationError>(progress.feasible[i].1)
}

proof fn lemma_visited(
    problem: OrderProblem,
    progress: OrderProgress,
    prefix: Seq<usize>,
    remaining: Seq<usize>,
)
    requires
        progress.nodes <= problem.node_limit,
        orders_simulate(problem, progress),
    ensures
        visited(problem, progress, prefix, remaining).nodes <= problem.node_limit,
        orders_simulate(problem, visited(problem, progress, prefix, remaining)),
    decreases remaining.len(), remaining.len() + 1,
{
    if progress.nodes < problem.node_limit {
        let counted = OrderProgress { nodes: (progress.nodes + 1) as u64, ..progress };
        let identity = prefix_hash(prefix);
        if !has_key(counted.seen, identity) && remaining.len() > 0 {
            let marked = OrderProgress { seen: with_key(counted.seen, identity), ..counted };
            lemma_choices_visited(problem, marked, prefix, remaining, 0);
        }
    }
}

proof fn lemma_choices_visited(
    problem: OrderProblem,
    progress: OrderProgress,
    prefix: Seq<usize>,
    remaining: Seq<usize>,
    from: int,
)
    requires
        0 <= from <= remaining.len(),
        progress.nodes <= problem.node_limit,
        orders_simulate(problem, progress),
    ensures
        choices_visited(problem, progress, prefix, remaining, from).nodes <= problem.node_limit,
        orders_simulate(problem, choices_visited(problem, progress, prefix, remaining, from)),
    decreases remaining.len(), remaining.len() - from,
{
    if from < remaining.len() {
        let chosen = prefix.push(remaining[from]);
        let left = remaining.remove(from);
        lemma_visited(problem, progress, chosen, left);
        let next = visited(problem, progress, chosen, left);
        if next.complete {
            lemma_choices_visited(problem, next, prefix, remaining, from + 1);
        }
    }
}

/// The search evaluates at most `node_limit` nodes and reports only orderings that simulate.
pub proof fn order_search_is_bounded_and_sound(
    snapshot: ExactVaultSnapshot,
    projection: ProjectedVaultView,
    config: ValidatedVaultConfig,
    deallocations: Seq<ActionView>,
    allocations: Seq<ActionView>,
    node_limit: u64,
)
    ensures
        ({
            let found = order_search(
                snapshot,
                projection,
                config,
                deallocations,
                allocations,
                node_limit,
            );
            found.nodes <= node_limit && forall|i: int|
                0 <= i < found.feasible.len() ==> simulation_spec(
                    snapshot,
                    projection,
                    config,
                    (#[trigger] found.feasible[i]).0,
                ) == Ok::<SimulationView, SimulationError>(found.feasible[i].1)
        }),
{
    let problem = OrderProblem {
        snapshot,
        projection,
        config,
        deallocations: canonical_order(snapshot, deallocations),
        allocations: canonical_order(snapshot, allocations),
        node_limit,
    };
    lemma_visited(
        problem,
        unstarted(),
        Seq::empty(),
        Seq::new(allocations.len(), |i: int| i as usize),
    );
}

} // verus!
