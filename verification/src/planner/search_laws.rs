//! What the bounded searches look through, stated on the rows, amounts and orders they hold.

use vstd::arithmetic::power2::pow2;
use vstd::prelude::*;

use crate::collections::{
    has_key, has_key_is_membership, strictly_increasing, value_of, with_key, with_key_is_insertion,
};
use crate::config::ValidatedVaultConfig;
use crate::domain::{ActionView, ExactVaultSnapshot, ProjectedVaultView};
use crate::planner::candidates::{
    amount_priority, binary_fractions, chosen_from, cut_boundaries_from, lattice_amounts,
    neighborhood, neighborhoods_from,
};
use crate::planner::cap_order::{
    action_key_spec, canonical_from, canonical_order, canonical_order_is_a_permutation,
    choices_visited, order_search, place_from, prefix_hash, selected_actions, unstarted, visited,
    OrderProblem, OrderProgress,
};
use crate::planner::capital::{
    capital_distributions_spec, capital_rows_from, pair_rows_from, partner_rows_from,
};
use crate::planner::distributions::{lemma_row_added, with_row, zero_row};
use crate::planner::objective::{
    lemma_lexicographic_irreflexive, lemma_lexicographic_transitive, lexicographically_before,
};
use crate::primitives::{
    group_u256, lemma_u256_injective, lemma_u256_range, saturating_difference, smaller, u256, U256,
};

verus! {

/// Whether a row is zero outside two positions.
pub open spec fn zero_outside(row: Seq<U256>, first: int, second: int) -> bool {
    forall|i: int| 0 <= i < row.len() && i != first && i != second ==> (#[trigger] row[i])@ == 0
}

/// Whether a row deploys the total into one position that takes it all.
pub open spec fn deploys_alone(
    row: Seq<U256>,
    maximums: Seq<U256>,
    total: U256,
    first: int,
) -> bool {
    &&& 0 <= first < maximums.len()
    &&& row.len() == maximums.len()
    &&& row[first]@ == total@ <= maximums[first]@
    &&& zero_outside(row, first, first)
}

/// Whether a row splits the total over two positions: a choice of the first, and the rest, each at
/// least the minimum action and within its maximum.
pub open spec fn deploys_in_two(
    row: Seq<U256>,
    maximums: Seq<U256>,
    lattices: Seq<Seq<U256>>,
    total: U256,
    minimum_action: U256,
    first: int,
    second: int,
) -> bool {
    &&& 0 <= first < maximums.len() && 0 <= second < maximums.len() && first != second
    &&& row.len() == maximums.len()
    &&& first < lattices.len() && lattices[first].contains(row[first])
    &&& row[first]@ + row[second]@ == total@
    &&& row[first]@ > 0 && row[second]@ > 0
    &&& minimum_action@ <= row[first]@ <= maximums[first]@
    &&& minimum_action@ <= row[second]@ <= maximums[second]@
    &&& zero_outside(row, first, second)
}

spec fn split_row(
    maximums: Seq<U256>,
    total: U256,
    minimum_action: U256,
    first: int,
    second: int,
    amount: U256,
    row: Seq<U256>,
) -> bool {
    let rest = saturating_difference(total, amount);
    &&& amount@ != 0 && minimum_action@ <= amount@ <= maximums[first]@ && amount@ < total@
        && minimum_action@ <= rest@ <= maximums[second]@
    &&& row == zero_row(maximums.len()).update(first, amount).update(second, rest)
}

spec fn split_rows(
    maximums: Seq<U256>,
    amounts: Seq<U256>,
    total: U256,
    minimum_action: U256,
    first: int,
    second: int,
    from: int,
    row: Seq<U256>,
) -> bool {
    exists|j: int|
        from <= j < amounts.len() && #[trigger] split_row(
            maximums,
            total,
            minimum_action,
            first,
            second,
            amounts[j],
            row,
        )
}

proof fn lemma_pair_rows(
    maximums: Seq<U256>,
    amounts: Seq<U256>,
    total: U256,
    minimum_action: U256,
    first: int,
    second: int,
    from: int,
    rows: Seq<Seq<U256>>,
    row: Seq<U256>,
)
    requires
        0 <= from <= amounts.len(),
    ensures
        pair_rows_from(
            maximums,
            amounts,
            total,
            minimum_action,
            first,
            second,
            from,
            rows,
        ).contains(row) <==> rows.contains(row) || split_rows(
            maximums,
            amounts,
            total,
            minimum_action,
            first,
            second,
            from,
            row,
        ),
    decreases amounts.len() - from,
{
    if from < amounts.len() {
        let amount = amounts[from];
        let rest = saturating_difference(total, amount);
        let added = zero_row(maximums.len()).update(first, amount).update(second, rest);
        let valid = amount@ != 0 && minimum_action@ <= amount@ <= maximums[first]@ && amount@
            < total@ && minimum_action@ <= rest@ <= maximums[second]@;
        let next = if valid {
            with_row(rows, added)
        } else {
            rows
        };
        lemma_row_added(rows, added, row);
        lemma_pair_rows(
            maximums,
            amounts,
            total,
            minimum_action,
            first,
            second,
            from + 1,
            next,
            row,
        );
        if valid && row == added {
            assert(split_row(
                maximums,
                total,
                minimum_action,
                first,
                second,
                amounts[from],
                row,
            ));
        }
    }
}

spec fn partner_split(
    maximums: Seq<U256>,
    lattices: Seq<Seq<U256>>,
    total: U256,
    minimum_action: U256,
    first: int,
    second: int,
    row: Seq<U256>,
) -> bool {
    first != second && first < lattices.len() && split_rows(
        maximums,
        lattices[first],
        total,
        minimum_action,
        first,
        second,
        0,
        row,
    )
}

spec fn some_partner_split(
    maximums: Seq<U256>,
    lattices: Seq<Seq<U256>>,
    total: U256,
    minimum_action: U256,
    first: int,
    from: int,
    row: Seq<U256>,
) -> bool {
    exists|second: int|
        from <= second < maximums.len() && #[trigger] partner_split(
            maximums,
            lattices,
            total,
            minimum_action,
            first,
            second,
            row,
        )
}

proof fn lemma_partner_rows(
    maximums: Seq<U256>,
    lattices: Seq<Seq<U256>>,
    total: U256,
    minimum_action: U256,
    first: int,
    second: int,
    rows: Seq<Seq<U256>>,
    row: Seq<U256>,
)
    requires
        0 <= second <= maximums.len(),
    ensures
        partner_rows_from(
            maximums,
            lattices,
            total,
            minimum_action,
            first,
            second,
            rows,
        ).contains(row) <==> rows.contains(row) || some_partner_split(
            maximums,
            lattices,
            total,
            minimum_action,
            first,
            second,
            row,
        ),
    decreases maximums.len() - second,
{
    if second < maximums.len() {
        let next = if first == second || first >= lattices.len() {
            rows
        } else {
            lemma_pair_rows(
                maximums,
                lattices[first],
                total,
                minimum_action,
                first,
                second,
                0,
                rows,
                row,
            );
            pair_rows_from(
                maximums,
                lattices[first],
                total,
                minimum_action,
                first,
                second,
                0,
                rows,
            )
        };
        lemma_partner_rows(
            maximums,
            lattices,
            total,
            minimum_action,
            first,
            second + 1,
            next,
            row,
        );
        assert(next.contains(row) <==> rows.contains(row) || partner_split(
            maximums,
            lattices,
            total,
            minimum_action,
            first,
            second,
            row,
        ));
    }
}

spec fn listed_at(
    maximums: Seq<U256>,
    lattices: Seq<Seq<U256>>,
    total: U256,
    minimum_action: U256,
    first: int,
    row: Seq<U256>,
) -> bool {
    (total@ <= maximums[first]@ && row == zero_row(maximums.len()).update(first, total))
        || some_partner_split(maximums, lattices, total, minimum_action, first, 0, row)
}

proof fn lemma_capital_rows(
    maximums: Seq<U256>,
    lattices: Seq<Seq<U256>>,
    total: U256,
    minimum_action: U256,
    first: int,
    rows: Seq<Seq<U256>>,
    row: Seq<U256>,
)
    requires
        0 <= first <= maximums.len(),
    ensures
        capital_rows_from(
            maximums,
            lattices,
            total,
            minimum_action,
            first,
            rows,
        ).contains(row) <==> rows.contains(row) || exists|f: int|
            first <= f < maximums.len() && #[trigger] listed_at(
                maximums,
                lattices,
                total,
                minimum_action,
                f,
                row,
            ),
    decreases maximums.len() - first,
{
    if first < maximums.len() {
        let single = zero_row(maximums.len()).update(first, total);
        let alone = if total@ <= maximums[first]@ {
            with_row(rows, single)
        } else {
            rows
        };
        lemma_row_added(rows, single, row);
        lemma_partner_rows(maximums, lattices, total, minimum_action, first, 0, alone, row);
        let next = partner_rows_from(maximums, lattices, total, minimum_action, first, 0, alone);
        lemma_capital_rows(maximums, lattices, total, minimum_action, first + 1, next, row);
        assert(next.contains(row) <==> rows.contains(row) || listed_at(
            maximums,
            lattices,
            total,
            minimum_action,
            first,
            row,
        ));
    }
}

proof fn lemma_zero_elsewhere(row: Seq<U256>, length: nat, first: int, second: int)
    requires
        row.len() == length,
        0 <= first < length,
        0 <= second < length,
        zero_outside(row, first, second),
    ensures
        row == zero_row(length).update(first, row[first]).update(second, row[second]),
{
    broadcast use group_u256;

    let built = zero_row(length).update(first, row[first]).update(second, row[second]);
    assert forall|i: int| 0 <= i < length implies #[trigger] row[i] == built[i] by {
        if i != first && i != second {
            lemma_u256_injective(row[i], u256(0));
        }
    }
    assert(row =~= built);
}

/// The distributions of one deployment target are exactly the rows that put it whole into one
/// position that takes it, and those that split it over two.
pub proof fn capital_rows_are_the_single_and_paired_ones(
    maximums: Seq<U256>,
    lattices: Seq<Seq<U256>>,
    total: U256,
    minimum_action: U256,
    row: Seq<U256>,
)
    ensures
        capital_distributions_spec(maximums, lattices, total, minimum_action).contains(row) <==> (
        exists|first: int| #[trigger] deploys_alone(row, maximums, total, first)) || (exists|
            first: int,
            second: int,
        | #[trigger]
            deploys_in_two(row, maximums, lattices, total, minimum_action, first, second)),
{
    broadcast use group_u256;

    lemma_capital_rows(maximums, lattices, total, minimum_action, 0, Seq::empty(), row);
    let listed = exists|f: int|
        0 <= f < maximums.len() && #[trigger] listed_at(
            maximums,
            lattices,
            total,
            minimum_action,
            f,
            row,
        );
    if listed {
        let f = choose|f: int|
            0 <= f < maximums.len() && #[trigger] listed_at(
                maximums,
                lattices,
                total,
                minimum_action,
                f,
                row,
            );
        if total@ <= maximums[f]@ && row == zero_row(maximums.len()).update(f, total) {
            assert(deploys_alone(row, maximums, total, f));
        } else {
            let g = choose|g: int|
                0 <= g < maximums.len() && #[trigger] partner_split(
                    maximums,
                    lattices,
                    total,
                    minimum_action,
                    f,
                    g,
                    row,
                );
            let j = choose|j: int|
                0 <= j < lattices[f].len() && #[trigger] split_row(
                    maximums,
                    total,
                    minimum_action,
                    f,
                    g,
                    lattices[f][j],
                    row,
                );
            assert(row[f] == lattices[f][j]);
            assert(deploys_in_two(row, maximums, lattices, total, minimum_action, f, g));
        }
    }
    if exists|first: int| #[trigger] deploys_alone(row, maximums, total, first) {
        let f = choose|first: int| #[trigger] deploys_alone(row, maximums, total, first);
        lemma_u256_injective(row[f], total);
        lemma_zero_elsewhere(row, maximums.len(), f, f);
        assert(row =~= zero_row(maximums.len()).update(f, total));
        assert(listed_at(maximums, lattices, total, minimum_action, f, row));
    }
    if exists|first: int, second: int| #[trigger]
        deploys_in_two(row, maximums, lattices, total, minimum_action, first, second) {
        let (f, g) = choose|first: int, second: int| #[trigger]
            deploys_in_two(row, maximums, lattices, total, minimum_action, first, second);
        let j = choose|j: int| 0 <= j < lattices[f].len() && lattices[f][j] == row[f];
        let rest = saturating_difference(total, row[f]);
        lemma_u256_range(total);
        lemma_u256_injective(rest, row[g]);
        lemma_zero_elsewhere(row, maximums.len(), f, g);
        assert(split_row(maximums, total, minimum_action, f, g, lattices[f][j], row));
        assert(split_rows(maximums, lattices[f], total, minimum_action, f, g, 0, row));
        assert(partner_split(maximums, lattices, total, minimum_action, f, g, row));
        assert(listed_at(maximums, lattices, total, minimum_action, f, row));
    }
}

/// Whether an amount lies within one unit of a boundary cut to the maximum.
pub open spec fn next_to(amount: U256, boundary: U256, maximum: U256) -> bool {
    let cut: int = if boundary@ < maximum@ {
        boundary@ as int
    } else {
        maximum@ as int
    };
    amount@ <= maximum@ && cut - 1 <= amount@ <= cut + 1
}

/// Whether an amount is a binary fraction of the maximum, down to the sixteenth.
pub open spec fn binary_fraction(amount: U256, maximum: U256, k: nat) -> bool {
    1 <= k <= 16 && amount@ == maximum@ / pow2(k)
}

/// Whether an amount is worth trying: next to zero, the minimum action, the maximum or a given
/// boundary, or a binary fraction of the maximum.
pub open spec fn worth_trying(
    amount: U256,
    minimum_action: U256,
    maximum: U256,
    boundaries: Seq<U256>,
) -> bool {
    ||| amount@ <= 1 && amount@ <= maximum@
    ||| next_to(amount, minimum_action, maximum)
    ||| next_to(amount, maximum, maximum)
    ||| exists|k: int| 0 <= k < boundaries.len() && next_to(amount, #[trigger] boundaries[k], maximum)
    ||| exists|k: nat| #[trigger] binary_fraction(amount, maximum, k)
}

proof fn lemma_neighborhood(value: U256, maximum: U256, amount: U256)
    requires
        value@ <= maximum@,
    ensures
        neighborhood(value, maximum).contains(amount) <==> next_to(amount, value, maximum),
{
    broadcast use group_u256;

    lemma_u256_range(maximum);
    let all = neighborhood(value, maximum);
    if next_to(amount, value, maximum) {
        let base: int = if value@ > 0 {
            1
        } else {
            0
        };
        assert(all[base] == value);
        if amount@ == value@ {
            lemma_u256_injective(amount, value);
        } else if amount@ < value@ {
            assert(all[0] == u256((value@ - 1) as nat));
            lemma_u256_injective(amount, u256((value@ - 1) as nat));
        } else {
            assert(all[base + 1] == u256(value@ + 1));
            lemma_u256_injective(amount, u256(value@ + 1));
        }
    }
}

proof fn lemma_neighborhoods(
    boundaries: Seq<U256>,
    maximum: U256,
    from: int,
    done: Seq<U256>,
    amount: U256,
)
    requires
        0 <= from <= boundaries.len(),
    ensures
        neighborhoods_from(boundaries, maximum, from, done).contains(amount) <==> done.contains(
            amount,
        ) || exists|k: int|
            from <= k < boundaries.len() && next_to(amount, #[trigger] boundaries[k], maximum),
    decreases boundaries.len() - from,
{
    if from < boundaries.len() {
        let near = neighborhood(smaller(boundaries[from], maximum), maximum);
        lemma_neighborhood(smaller(boundaries[from], maximum), maximum, amount);
        let next = done + near;
        assert(next.contains(amount) <==> done.contains(amount) || near.contains(amount)) by {
            if done.contains(amount) {
                let i = choose|i: int| 0 <= i < done.len() && done[i] == amount;
                assert(next[i] == amount);
            }
            if near.contains(amount) {
                let i = choose|i: int| 0 <= i < near.len() && near[i] == amount;
                assert(next[done.len() + i] == amount);
            }
            if next.contains(amount) {
                let i = choose|i: int| 0 <= i < next.len() && next[i] == amount;
                if i < done.len() {
                    assert(done[i] == amount);
                } else {
                    assert(near[i - done.len()] == amount);
                }
            }
        }
        lemma_neighborhoods(boundaries, maximum, from + 1, next, amount);
    }
}

proof fn lemma_cut_boundaries(
    boundaries: Seq<U256>,
    maximum: U256,
    from: int,
    done: Seq<U256>,
    amount: U256,
)
    requires
        0 <= from <= boundaries.len(),
        cut_boundaries_from(boundaries, maximum, from, done).contains(amount),
    ensures
        done.contains(amount) || exists|k: int|
            from <= k < boundaries.len() && next_to(amount, #[trigger] boundaries[k], maximum),
    decreases boundaries.len() - from,
{
    if from < boundaries.len() {
        let cut = smaller(boundaries[from], maximum);
        let next = done.push(cut);
        lemma_cut_boundaries(boundaries, maximum, from + 1, next, amount);
        if next.contains(amount) {
            let i = choose|i: int| 0 <= i < next.len() && next[i] == amount;
            if i < done.len() {
                assert(done[i] == amount);
            } else {
                assert(next_to(amount, boundaries[from], maximum));
            }
        }
    }
}

proof fn lemma_priority(
    minimum_action: U256,
    maximum: U256,
    boundaries: Seq<U256>,
    amount: U256,
)
    requires
        amount@ <= maximum@,
    ensures
        amount_priority(minimum_action, maximum, boundaries).contains(amount) <==> worth_trying(
            amount,
            minimum_action,
            maximum,
            boundaries,
        ),
{
    broadcast use group_u256;

    lemma_u256_range(maximum);
    let first = seq![u256(0), smaller(minimum_action, maximum), maximum];
    let exact = cut_boundaries_from(boundaries, maximum, 0, first);
    let probes = seq![u256(0), minimum_action, maximum] + boundaries;
    let near = neighborhoods_from(probes, maximum, 0, exact);
    let fractions = binary_fractions(maximum);
    let all = near + fractions;
    lemma_neighborhoods(probes, maximum, 0, exact, amount);
    assert(probes[0] == u256(0) && probes[1] == minimum_action && probes[2] == maximum);
    assert forall|k: int| 0 <= k < boundaries.len() implies #[trigger] boundaries[k] == probes[k
        + 3] by {}
    if exact.contains(amount) {
        lemma_cut_boundaries(boundaries, maximum, 0, first, amount);
        if first.contains(amount) {
            let i = choose|i: int| 0 <= i < first.len() && first[i] == amount;
            assert(i == 0 || i == 1 || i == 2);
        }
    }
    if all.contains(amount) {
        let i = choose|i: int| 0 <= i < all.len() && all[i] == amount;
        if i < near.len() {
            assert(near[i] == amount);
            if !exact.contains(amount) {
                let k = choose|k: int|
                    0 <= k < probes.len() && next_to(amount, #[trigger] probes[k], maximum);
                if k >= 3 {
                    assert(probes[k] == boundaries[k - 3]);
                }
            }
        } else {
            let k = i - near.len();
            assert(fractions[k] == amount);
            lemma_fraction(maximum, (k + 1) as nat);
            assert(binary_fraction(amount, maximum, (k + 1) as nat));
        }
    }
    if worth_trying(amount, minimum_action, maximum, boundaries) {
        if exists|k: nat| #[trigger] binary_fraction(amount, maximum, k) {
            let k = choose|k: nat| #[trigger] binary_fraction(amount, maximum, k);
            lemma_fraction(maximum, k);
            assert(fractions[k - 1] == u256(maximum@ / pow2(k)));
            lemma_u256_injective(amount, fractions[k - 1]);
            assert(all[near.len() + k - 1] == amount);
        } else {
            if exists|k: int|
                0 <= k < boundaries.len() && next_to(amount, #[trigger] boundaries[k], maximum) {
                let k = choose|k: int|
                    0 <= k < boundaries.len() && next_to(amount, #[trigger] boundaries[k], maximum);
                assert(next_to(amount, probes[k + 3], maximum));
            } else if amount@ <= 1 {
                assert(next_to(amount, probes[0], maximum));
            } else if next_to(amount, minimum_action, maximum) {
                assert(next_to(amount, probes[1], maximum));
            } else {
                assert(next_to(amount, probes[2], maximum));
            }
            assert(near.contains(amount));
            let i = choose|i: int| 0 <= i < near.len() && near[i] == amount;
            assert(all[i] == amount);
        }
    }
}

proof fn lemma_fraction(maximum: U256, k: nat)
    ensures
        maximum@ / pow2(k) <= maximum@,
        u256(maximum@ / pow2(k))@ == maximum@ / pow2(k),
{
    broadcast use group_u256;

    lemma_u256_range(maximum);
    vstd::arithmetic::power2::lemma_pow2_pos(k);
    vstd::arithmetic::div_mod::lemma_div_is_ordered_by_denominator(
        maximum@ as int,
        1,
        pow2(k) as int,
    );
    assert(maximum@ as int / 1 == maximum@);
    assert(0 <= maximum@ / pow2(k)) by {
        vstd::arithmetic::div_mod::lemma_div_pos_is_pos(maximum@ as int, pow2(k) as int);
    }
}

proof fn lemma_chosen_members(
    priority: Seq<U256>,
    maximum: U256,
    limit: nat,
    from: int,
    chosen: Seq<U256>,
    amount: U256,
)
    requires
        0 <= from <= priority.len(),
        strictly_increasing(chosen),
    ensures
        ({
            let all = chosen_from(priority, maximum, limit, from, chosen);
            let offered = exists|i: int|
                from <= i < priority.len() && #[trigger] priority[i] == amount;
            &&& chosen.contains(amount) ==> all.contains(amount)
            &&& all.contains(amount) ==> chosen.contains(amount) || (offered && amount@
                <= maximum@)
            &&& all.len() < limit && offered && amount@ <= maximum@ ==> all.contains(amount)
        }),
    decreases priority.len() - from,
{
    if from < priority.len() {
        let candidate = priority[from];
        has_key_is_membership(chosen, candidate);
        with_key_is_insertion(chosen, candidate);
        let next = with_key(chosen, candidate);
        assert(next.contains(amount) == (chosen.contains(amount) || amount == candidate)) by {
            assert(next.to_set().contains(amount) == chosen.to_set().insert(candidate).contains(
                amount,
            ));
        }
        if candidate@ <= maximum@ && !has_key(chosen, candidate) {
            if next.len() != limit {
                lemma_chosen_members(priority, maximum, limit, from + 1, next, amount);
            }
        } else {
            lemma_chosen_members(priority, maximum, limit, from + 1, chosen, amount);
        }
    }
}

/// A lattice tries no amount that is not worth trying, unless all amounts fit the limit; and while
/// it holds fewer amounts than the limit, it misses none that is.
pub proof fn lattice_tries_what_is_worth_trying(
    minimum_action: U256,
    maximum: U256,
    boundaries: Seq<U256>,
    limit: usize,
    amount: U256,
)
    requires
        limit > 0,
    ensures
        ({
            let amounts = lattice_amounts(minimum_action, maximum, boundaries, limit);
            let tried = amounts.contains(amount);
            &&& tried ==> amount@ <= maximum@
            &&& maximum@ < limit ==> (tried <==> amount@ <= maximum@)
            &&& maximum@ >= limit && tried ==> worth_trying(
                amount,
                minimum_action,
                maximum,
                boundaries,
            )
            &&& amounts.len() < limit && amount@ <= maximum@ && worth_trying(
                amount,
                minimum_action,
                maximum,
                boundaries,
            ) ==> tried
        }),
{
    broadcast use group_u256;

    lemma_u256_range(maximum);
    let amounts = lattice_amounts(minimum_action, maximum, boundaries, limit);
    if maximum@ < limit {
        if amount@ <= maximum@ {
            assert(amounts[amount@ as int] == u256(amount@));
            lemma_u256_injective(amount, u256(amount@));
        }
    } else {
        let priority = amount_priority(minimum_action, maximum, boundaries);
        lemma_chosen_members(priority, maximum, limit as nat, 0, Seq::empty(), amount);
        if amount@ <= maximum@ {
            lemma_priority(minimum_action, maximum, boundaries, amount);
        }
    }
}

/// Loan token, market and adapter of an action on a known position.
pub open spec fn action_place(snapshot: ExactVaultSnapshot, action: ActionView) -> (int, int, int) {
    let state = value_of(snapshot.positions@, action.position)->Some_0;
    (
        state.market_params.loan_token@ as int,
        state.market_id.0@ as int,
        action.adapter.0@ as int,
    )
}

/// Whether the first of two places comes no later.
pub open spec fn no_later(left: (int, int, int), right: (int, int, int)) -> bool {
    left.0 < right.0 || left.0 == right.0 && (left.1 < right.1 || left.1 == right.1 && left.2
        <= right.2)
}

spec fn in_key_order(snapshot: ExactVaultSnapshot, actions: Seq<ActionView>) -> bool {
    forall|i: int, j: int|
        0 <= i < j < actions.len() ==> !lexicographically_before(
            action_key_spec(snapshot, #[trigger] actions[j]),
            action_key_spec(snapshot, #[trigger] actions[i]),
        )
}

proof fn lemma_place_sorts(
    snapshot: ExactVaultSnapshot,
    sorted: Seq<ActionView>,
    action: ActionView,
    from: int,
)
    requires
        0 <= from <= sorted.len(),
    ensures
        ({
            let at = place_from(snapshot, sorted, action, from);
            &&& from <= at <= sorted.len()
            &&& forall|i: int|
                from <= i < at ==> !lexicographically_before(
                    action_key_spec(snapshot, action),
                    action_key_spec(snapshot, #[trigger] sorted[i]),
                )
            &&& at < sorted.len() ==> lexicographically_before(
                action_key_spec(snapshot, action),
                action_key_spec(snapshot, sorted[at]),
            )
        }),
    decreases sorted.len() - from,
{
    if from < sorted.len() && !lexicographically_before(
        action_key_spec(snapshot, action),
        action_key_spec(snapshot, sorted[from]),
    ) {
        lemma_place_sorts(snapshot, sorted, action, from + 1);
    }
}

proof fn lemma_canonical_sorted(
    snapshot: ExactVaultSnapshot,
    actions: Seq<ActionView>,
    from: int,
    sorted: Seq<ActionView>,
)
    requires
        0 <= from <= actions.len(),
        in_key_order(snapshot, sorted),
    ensures
        in_key_order(snapshot, canonical_from(snapshot, actions, from, sorted)),
    decreases actions.len() - from,
{
    if from < actions.len() {
        let action = actions[from];
        let key = action_key_spec(snapshot, action);
        let at = place_from(snapshot, sorted, action, 0);
        lemma_place_sorts(snapshot, sorted, action, 0);
        let next = sorted.insert(at, action);
        assert forall|i: int, j: int| 0 <= i < j < next.len() implies !lexicographically_before(
            action_key_spec(snapshot, #[trigger] next[j]),
            action_key_spec(snapshot, #[trigger] next[i]),
        ) by {
            if j == at {
                assert(next[i] == sorted[i]);
            } else if i == at {
                assert(next[j] == sorted[j - 1]);
                let later = action_key_spec(snapshot, sorted[j - 1]);
                let place = action_key_spec(snapshot, sorted[at]);
                if lexicographically_before(later, key) {
                    lemma_lexicographic_transitive(later, key, place);
                    if j - 1 == at {
                        lemma_lexicographic_irreflexive(place);
                    } else {
                        assert(!lexicographically_before(
                            action_key_spec(snapshot, sorted[j - 1]),
                            action_key_spec(snapshot, sorted[at]),
                        ));
                    }
                }
            } else {
                let a = if i < at {
                    i
                } else {
                    i - 1
                };
                let b = if j < at {
                    j
                } else {
                    j - 1
                };
                assert(next[i] == sorted[a] && next[j] == sorted[b]);
            }
        }
        lemma_canonical_sorted(snapshot, actions, from + 1, next);
    }
}

/// Canonical order goes by loan token, then market, then adapter.
pub proof fn canonical_order_is_sorted(
    snapshot: ExactVaultSnapshot,
    actions: Seq<ActionView>,
    i: int,
    j: int,
)
    requires
        0 <= i < j < canonical_order(snapshot, actions).len(),
        value_of(
            snapshot.positions@,
            canonical_order(snapshot, actions)[i].position,
        ) is Some,
        value_of(
            snapshot.positions@,
            canonical_order(snapshot, actions)[j].position,
        ) is Some,
    ensures
        no_later(
            action_place(snapshot, canonical_order(snapshot, actions)[i]),
            action_place(snapshot, canonical_order(snapshot, actions)[j]),
        ),
{
    lemma_canonical_sorted(snapshot, actions, 0, Seq::empty());
    let sorted = canonical_order(snapshot, actions);
    let x = action_key_spec(snapshot, sorted[j]);
    let y = action_key_spec(snapshot, sorted[i]);
    assert(!lexicographically_before(x, y));
    reveal_with_fuel(lexicographically_before, 4);
    assert(x.drop_first()[0] == x[1] && y.drop_first()[0] == y[1]);
    assert(x.drop_first().drop_first()[0] == x[2]);
    assert(y.drop_first().drop_first()[0] == y[2]);
}

/// Whether actions are all deallocations in their order and then the allocations, each once, in
/// some order.
pub open spec fn reorders(
    actions: Seq<ActionView>,
    deallocations: Seq<ActionView>,
    allocations: Seq<ActionView>,
) -> bool {
    &&& actions.len() == deallocations.len() + allocations.len()
    &&& actions.take(deallocations.len() as int) == deallocations
    &&& actions.skip(deallocations.len() as int).to_multiset() == allocations.to_multiset()
}

spec fn all_reorder(problem: OrderProblem, progress: OrderProgress) -> bool {
    forall|i: int|
        0 <= i < progress.feasible.len() ==> reorders(
            (#[trigger] progress.feasible[i]).0,
            problem.deallocations,
            problem.allocations,
        )
}

spec fn picks_each_once(
    allocations: Seq<ActionView>,
    prefix: Seq<usize>,
    remaining: Seq<usize>,
) -> bool {
    &&& prefix.len() + remaining.len() == allocations.len()
    &&& selected_actions(allocations, prefix).to_multiset().add(
        selected_actions(allocations, remaining).to_multiset(),
    ) == allocations.to_multiset()
}

proof fn lemma_pick_next(
    allocations: Seq<ActionView>,
    prefix: Seq<usize>,
    remaining: Seq<usize>,
    from: int,
)
    requires
        picks_each_once(allocations, prefix, remaining),
        0 <= from < remaining.len(),
    ensures
        picks_each_once(allocations, prefix.push(remaining[from]), remaining.remove(from)),
{
    broadcast use vstd::seq_lib::group_to_multiset_ensures;

    let before = selected_actions(allocations, prefix);
    let left = selected_actions(allocations, remaining);
    let picked = left[from];
    assert(selected_actions(allocations, prefix.push(remaining[from])) =~= before.push(picked));
    assert(selected_actions(allocations, remaining.remove(from)) =~= left.remove(from));
    assert(left.to_multiset().count(picked) > 0) by {
        assert(left.contains(picked));
    }
    assert(before.to_multiset().add(left.to_multiset()) =~= before.push(picked).to_multiset().add(
        left.remove(from).to_multiset(),
    ));
}

proof fn lemma_visited_reorders(
    problem: OrderProblem,
    progress: OrderProgress,
    prefix: Seq<usize>,
    remaining: Seq<usize>,
)
    requires
        picks_each_once(problem.allocations, prefix, remaining),
        all_reorder(problem, progress),
    ensures
        all_reorder(problem, visited(problem, progress, prefix, remaining)),
    decreases remaining.len(), remaining.len() + 1,
{
    broadcast use vstd::seq_lib::group_to_multiset_ensures;

    if progress.nodes < problem.node_limit {
        let counted = OrderProgress { nodes: (progress.nodes + 1) as u64, ..progress };
        let identity = prefix_hash(prefix);
        if !has_key(counted.seen, identity) {
            let marked = OrderProgress { seen: with_key(counted.seen, identity), ..counted };
            if remaining.len() == 0 {
                let chosen = selected_actions(problem.allocations, prefix);
                let actions = problem.deallocations + chosen;
                assert(selected_actions(problem.allocations, remaining) =~= Seq::<
                    ActionView,
                >::empty());
                assert(chosen.to_multiset() =~= chosen.to_multiset().add(
                    Seq::<ActionView>::empty().to_multiset(),
                ));
                assert(actions.take(problem.deallocations.len() as int)
                    =~= problem.deallocations);
                assert(actions.skip(problem.deallocations.len() as int) =~= chosen);
                assert(reorders(actions, problem.deallocations, problem.allocations));
            } else {
                lemma_choices_reorder(problem, marked, prefix, remaining, 0);
            }
        }
    }
}

proof fn lemma_choices_reorder(
    problem: OrderProblem,
    progress: OrderProgress,
    prefix: Seq<usize>,
    remaining: Seq<usize>,
    from: int,
)
    requires
        0 <= from <= remaining.len(),
        picks_each_once(problem.allocations, prefix, remaining),
        all_reorder(problem, progress),
    ensures
        all_reorder(problem, choices_visited(problem, progress, prefix, remaining, from)),
    decreases remaining.len(), remaining.len() - from,
{
    if from < remaining.len() {
        let chosen = prefix.push(remaining[from]);
        let left = remaining.remove(from);
        lemma_pick_next(problem.allocations, prefix, remaining, from);
        lemma_visited_reorders(problem, progress, chosen, left);
        let next = visited(problem, progress, chosen, left);
        if next.complete {
            lemma_choices_reorder(problem, next, prefix, remaining, from + 1);
        }
    }
}

/// Every ordering found deallocates first, in canonical order, and then makes every allocation
/// exactly once.
pub proof fn orders_deallocate_first_and_allocate_once(
    snapshot: ExactVaultSnapshot,
    projection: ProjectedVaultView,
    config: ValidatedVaultConfig,
    deallocations: Seq<ActionView>,
    allocations: Seq<ActionView>,
    node_limit: u64,
)
    requires
        allocations.len() <= usize::MAX,
    ensures
        ({
            let found = order_search(
                snapshot,
                projection,
                config,
                deallocations,
                allocations,
                node_limit,
            );
            forall|i: int|
                0 <= i < found.feasible.len() ==> reorders(
                    (#[trigger] found.feasible[i]).0,
                    canonical_order(snapshot, deallocations),
                    allocations,
                )
        }),
{
    broadcast use vstd::seq_lib::group_to_multiset_ensures;

    let sorted = canonical_order(snapshot, allocations);
    let problem = OrderProblem {
        snapshot,
        projection,
        config,
        deallocations: canonical_order(snapshot, deallocations),
        allocations: sorted,
        node_limit,
    };
    let indices = Seq::new(allocations.len(), |i: int| i as usize);
    canonical_order_is_a_permutation(snapshot, allocations);
    assert(sorted.len() == allocations.len()) by {
        assert(sorted.to_multiset().len() == allocations.to_multiset().len());
    }
    assert(selected_actions(sorted, indices) =~= sorted);
    assert(selected_actions(sorted, Seq::<usize>::empty()) =~= Seq::<ActionView>::empty());
    assert(Seq::<ActionView>::empty().to_multiset().add(sorted.to_multiset())
        =~= sorted.to_multiset());
    lemma_visited_reorders(problem, unstarted(), Seq::empty(), indices);
}

} // verus!
