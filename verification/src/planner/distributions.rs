//! Bounded enumeration of amount vectors that add up to one total.

use vstd::prelude::*;

use crate::primitives::{
    group_u256, lemma_u256_injective, lemma_u256_range, saturating_difference, sum, u256, U256,
};

verus! {

/// What a sequence of amount vectors holds.
pub open spec fn rows_view(rows: Seq<Vec<U256>>) -> Seq<Seq<U256>> {
    Seq::new(rows.len(), |i: int| rows[i]@)
}

/// Lexicographic order of amount vectors from index `from` on; a proper prefix comes first.
pub open spec fn row_before_from(left: Seq<U256>, right: Seq<U256>, from: int) -> bool
    decreases left.len() - from,
{
    if from >= right.len() {
        false
    } else if from >= left.len() {
        true
    } else if left[from]@ != right[from]@ {
        left[from]@ < right[from]@
    } else {
        row_before_from(left, right, from + 1)
    }
}

/// Index of the first row from `from` on that does not order before `row`.
pub open spec fn row_bound_from(rows: Seq<Seq<U256>>, row: Seq<U256>, from: int) -> int
    decreases rows.len() - from,
{
    if from >= rows.len() {
        rows.len() as int
    } else if row_before_from(rows[from], row, 0) {
        row_bound_from(rows, row, from + 1)
    } else {
        from
    }
}

/// Ordered rows with `row` added at its place unless it is there.
pub open spec fn with_row(rows: Seq<Seq<U256>>, row: Seq<U256>) -> Seq<Seq<U256>> {
    let at = row_bound_from(rows, row, 0);
    if at < rows.len() && !row_before_from(row, rows[at], 0) {
        rows
    } else {
        rows.insert(at, row)
    }
}

fn row_before(left: &Vec<U256>, right: &Vec<U256>) -> (r: bool)
    ensures
        r == row_before_from(left@, right@, 0),
{
    let mut i: usize = 0;
    while i < left.len() && i < right.len()
        invariant
            i <= left.len(),
            i <= right.len(),
            row_before_from(left@, right@, 0) == row_before_from(left@, right@, i as int),
        decreases left.len() - i,
    {
        if left[i].lt(right[i]) {
            return true;
        }
        if right[i].lt(left[i]) {
            return false;
        }
        i = i + 1;
    }
    i < right.len()
}

/// Adds a row to ordered rows unless it is there.
pub(crate) fn insert_row(rows: &mut Vec<Vec<U256>>, row: Vec<U256>)
    ensures
        rows_view(final(rows)@) == with_row(rows_view(old(rows)@), row@),
{
    let ghost before = rows_view(rows@);
    let mut at: usize = 0;
    while at < rows.len() && row_before(&rows[at], &row)
        invariant
            at <= rows.len(),
            rows_view(rows@) == before,
            rows_view(rows@).len() == rows.len(),
            row_bound_from(before, row@, 0) == row_bound_from(before, row@, at as int),
        decreases rows.len() - at,
    {
        at = at + 1;
    }
    if at < rows.len() && !row_before(&row, &rows[at]) {
        return;
    }
    let ghost added = row@;
    rows.insert(at, row);
    assert(rows_view(rows@) =~= before.insert(at as int, added));
}

/// A copy of an amount vector.
pub(crate) fn copy_row(row: &Vec<U256>) -> (r: Vec<U256>)
    ensures
        r@ == row@,
{
    let mut copy: Vec<U256> = Vec::new();
    let mut i: usize = 0;
    while i < row.len()
        invariant
            i <= row.len(),
            copy@ == row@.subrange(0, i as int),
        decreases row.len() - i,
    {
        copy.push(row[i]);
        i = i + 1;
        assert(copy@ =~= row@.subrange(0, i as int));
    }
    assert(copy@ =~= row@);
    copy
}

/// A vector of `length` zero amounts.
pub open spec fn zero_row(length: nat) -> Seq<U256> {
    Seq::new(length, |i: int| u256(0))
}

/// Builds a vector of zero amounts.
pub(crate) fn zeros(length: usize) -> (r: Vec<U256>)
    ensures
        r@ == zero_row(length as nat),
{
    let mut row: Vec<U256> = Vec::new();
    let mut i: usize = 0;
    while i < length
        invariant
            i <= length,
            row@ == zero_row(i as nat),
        decreases length - i,
    {
        row.push(U256::zero());
        i = i + 1;
        assert(row@ =~= zero_row(i as nat));
    }
    row
}

/// A partly filled amount vector and the sum of its amounts.
pub type Partial = (Seq<U256>, U256);

/// What partly filled vectors hold.
pub open spec fn partials_view(partials: Seq<(Vec<U256>, U256)>) -> Seq<Partial> {
    Seq::new(partials.len(), |i: int| (partials[i].0@, partials[i].1))
}

/// Fills slot `index` of one partial with each amount from index `from` on that keeps the sum
/// within the total; absent when more than `limit` partials would result.
pub open spec fn fill_amounts_from(
    partial: Partial,
    amounts: Seq<U256>,
    index: int,
    total: U256,
    limit: nat,
    from: int,
    next: Seq<Partial>,
) -> Option<Seq<Partial>>
    decreases amounts.len() - from,
{
    if from >= amounts.len() {
        Some(next)
    } else {
        match sum(partial.1, amounts[from]) {
            None => fill_amounts_from(partial, amounts, index, total, limit, from + 1, next),
            Some(updated) => if updated@ > total@ {
                fill_amounts_from(partial, amounts, index, total, limit, from + 1, next)
            } else if next.len() >= limit {
                None
            } else {
                fill_amounts_from(
                    partial,
                    amounts,
                    index,
                    total,
                    limit,
                    from + 1,
                    next.push((partial.0.update(index, amounts[from]), updated)),
                )
            },
        }
    }
}

/// Fills slot `index` of every partial from index `from` on.
pub open spec fn fill_partials_from(
    partials: Seq<Partial>,
    amounts: Seq<U256>,
    index: int,
    total: U256,
    limit: nat,
    from: int,
    next: Seq<Partial>,
) -> Option<Seq<Partial>>
    decreases partials.len() - from,
{
    if from >= partials.len() {
        Some(next)
    } else {
        match fill_amounts_from(partials[from], amounts, index, total, limit, 0, next) {
            None => None,
            Some(filled) => fill_partials_from(
                partials,
                amounts,
                index,
                total,
                limit,
                from + 1,
                filled,
            ),
        }
    }
}

/// Fills every slot from `index` on but the sink.
pub open spec fn fill_slots_from(
    lattices: Seq<Seq<U256>>,
    sink: int,
    total: U256,
    limit: nat,
    index: int,
    partials: Seq<Partial>,
) -> Option<Seq<Partial>>
    decreases lattices.len() - index,
{
    if index >= lattices.len() {
        Some(partials)
    } else if index == sink {
        fill_slots_from(lattices, sink, total, limit, index + 1, partials)
    } else {
        match fill_partials_from(partials, lattices[index], index, total, limit, 0, Seq::empty()) {
            None => None,
            Some(next) => fill_slots_from(lattices, sink, total, limit, index + 1, next),
        }
    }
}

/// Whether an amount is neither zero nor at least the minimum action.
pub open spec fn below_minimum(amount: U256, minimum_action: U256) -> bool {
    amount@ != 0 && amount@ < minimum_action@
}

/// Whether a filled vector and the residual left for the sink are all executable amounts.
pub open spec fn executable_row(
    row: Seq<U256>,
    residual: U256,
    sink_maximum: U256,
    minimum_action: U256,
) -> bool {
    residual@ <= sink_maximum@ && !below_minimum(residual, minimum_action) && forall|i: int|
        0 <= i < row.len() ==> !below_minimum(#[trigger] row[i], minimum_action)
}

/// Adds the executable completions of the partials from index `from` on to the ordered rows;
/// absent when more than `limit` rows would result.
pub open spec fn complete_from(
    partials: Seq<Partial>,
    sink: int,
    sink_maximum: U256,
    total: U256,
    minimum_action: U256,
    limit: nat,
    from: int,
    rows: Seq<Seq<U256>>,
) -> Option<Seq<Seq<U256>>>
    decreases partials.len() - from,
{
    if from >= partials.len() {
        Some(rows)
    } else {
        let residual = saturating_difference(total, partials[from].1);
        if !executable_row(partials[from].0, residual, sink_maximum, minimum_action) {
            complete_from(
                partials,
                sink,
                sink_maximum,
                total,
                minimum_action,
                limit,
                from + 1,
                rows,
            )
        } else {
            let next = with_row(rows, partials[from].0.update(sink, residual));
            if next.len() > limit {
                None
            } else {
                complete_from(
                    partials,
                    sink,
                    sink_maximum,
                    total,
                    minimum_action,
                    limit,
                    from + 1,
                    next,
                )
            }
        }
    }
}

/// Rows with every position from `sink` on taken in turn as the one that absorbs the residual.
pub open spec fn distributions_from(
    maximums: Seq<U256>,
    lattices: Seq<Seq<U256>>,
    total: U256,
    minimum_action: U256,
    limit: nat,
    sink: int,
    rows: Seq<Seq<U256>>,
) -> Option<Seq<Seq<U256>>>
    decreases maximums.len() - sink,
{
    if sink >= maximums.len() {
        Some(rows)
    } else {
        match fill_slots_from(
            lattices,
            sink,
            total,
            limit,
            0,
            seq![(zero_row(maximums.len()), u256(0))],
        ) {
            None => None,
            Some(partials) => match complete_from(
                partials,
                sink,
                maximums[sink],
                total,
                minimum_action,
                limit,
                0,
                rows,
            ) {
                None => None,
                Some(next) => distributions_from(
                    maximums,
                    lattices,
                    total,
                    minimum_action,
                    limit,
                    sink + 1,
                    next,
                ),
            },
        }
    }
}

/// Every bounded distribution of the total, in lexicographic order; absent when the bound is hit.
pub open spec fn bounded_distributions_spec(
    maximums: Seq<U256>,
    lattices: Seq<Seq<U256>>,
    total: U256,
    minimum_action: U256,
    limit: nat,
) -> Option<Seq<Seq<U256>>> {
    distributions_from(maximums, lattices, total, minimum_action, limit, 0, Seq::empty())
}

fn fill_amounts(
    selected: &Vec<U256>,
    subtotal: U256,
    amounts: &Vec<U256>,
    index: usize,
    total: U256,
    limit: usize,
    next: &mut Vec<(Vec<U256>, U256)>,
) -> (r: bool)
    requires
        index < selected.len(),
    ensures
        match fill_amounts_from(
            (selected@, subtotal),
            amounts@,
            index as int,
            total,
            limit as nat,
            0,
            partials_view(old(next)@),
        ) {
            Some(partials) => r && partials_view(final(next)@) == partials,
            None => !r,
        },
{
    let ghost partial = (selected@, subtotal);
    let ghost before = partials_view(next@);
    let mut i: usize = 0;
    while i < amounts.len()
        invariant
            i <= amounts.len(),
            index < selected.len(),
            partial == (selected@, subtotal),
            fill_amounts_from(partial, amounts@, index as int, total, limit as nat, 0, before)
                == fill_amounts_from(
                partial,
                amounts@,
                index as int,
                total,
                limit as nat,
                i as int,
                partials_view(next@),
            ),
            before == partials_view(old(next)@),
        decreases amounts.len() - i,
    {
        let amount = amounts[i];
        i = i + 1;
        if let Some(updated) = subtotal.checked_add(amount) {
            if updated.le(total) {
                if next.len() >= limit {
                    return false;
                }
                let mut candidate = copy_row(selected);
                candidate.set(index, amount);
                let ghost earlier = partials_view(next@);
                next.push((candidate, updated));
                assert(partials_view(next@) =~= earlier.push(
                    (selected@.update(index as int, amount), updated),
                ));
            }
        }
    }
    true
}

fn fill_slots(
    lattices: &Vec<Vec<U256>>,
    length: usize,
    sink: usize,
    total: U256,
    limit: usize,
) -> (r: Option<Vec<(Vec<U256>, U256)>>)
    requires
        lattices.len() <= length,
    ensures
        match fill_slots_from(
            rows_view(lattices@),
            sink as int,
            total,
            limit as nat,
            0,
            seq![(zero_row(length as nat), u256(0))],
        ) {
            Some(partials) => r is Some && partials_view(r->0@) == partials,
            None => r is None,
        },
        r is Some ==> forall|i: int| 0 <= i < r->0@.len() ==> (#[trigger] r->0@[i]).0.len() == length,
{
    let ghost views = rows_view(lattices@);
    let ghost first = seq![(zero_row(length as nat), u256(0))];
    let ghost goal = fill_slots_from(views, sink as int, total, limit as nat, 0, first);
    let mut partials: Vec<(Vec<U256>, U256)> = Vec::new();
    partials.push((zeros(length), U256::zero()));
    assert(partials_view(partials@) =~= first);
    let mut index: usize = 0;
    while index < lattices.len()
        invariant
            index <= lattices.len(),
            lattices.len() <= length,
            views == rows_view(lattices@),
            goal == fill_slots_from(
                views,
                sink as int,
                total,
                limit as nat,
                0,
                seq![(zero_row(length as nat), u256(0))],
            ),
            goal == fill_slots_from(
                views,
                sink as int,
                total,
                limit as nat,
                index as int,
                partials_view(partials@),
            ),
            forall|i: int|
                0 <= i < partials@.len() ==> (#[trigger] partials@[i]).0.len() == length,
        decreases lattices.len() - index,
    {
        if index != sink {
            let mut next: Vec<(Vec<U256>, U256)> = Vec::new();
            let ghost held = partials_view(partials@);
            let ghost step = fill_partials_from(
                held,
                lattices@[index as int]@,
                index as int,
                total,
                limit as nat,
                0,
                Seq::empty(),
            );
            assert(partials_view(next@) =~= Seq::<Partial>::empty());
            let mut i: usize = 0;
            while i < partials.len()
                invariant
                    i <= partials.len(),
                    index < lattices.len(),
                    lattices.len() <= length,
                    held == partials_view(partials@),
                    views == rows_view(lattices@),
                    step is None ==> goal is None,
                    goal == fill_slots_from(
                        views,
                        sink as int,
                        total,
                        limit as nat,
                        0,
                        seq![(zero_row(length as nat), u256(0))],
                    ),
                    step == fill_partials_from(
                        held,
                        lattices@[index as int]@,
                        index as int,
                        total,
                        limit as nat,
                        i as int,
                        partials_view(next@),
                    ),
                    forall|k: int|
                        0 <= k < partials@.len() ==> (#[trigger] partials@[k]).0.len() == length,
                    forall|k: int| 0 <= k < next@.len() ==> (#[trigger] next@[k]).0.len() == length,
                decreases partials.len() - i,
            {
                let ghost earlier = next@;
                if !fill_amounts(
                    &partials[i].0,
                    partials[i].1,
                    &lattices[index],
                    index,
                    total,
                    limit,
                    &mut next,
                ) {
                    return None;
                }
                proof {
                    lemma_fill_amounts_lengths(
                        held[i as int],
                        lattices@[index as int]@,
                        index as int,
                        total,
                        limit as nat,
                        0,
                        partials_view(earlier),
                        length as nat,
                    );
                    assert forall|k: int| 0 <= k < next@.len() implies (
                    #[trigger] next@[k]).0.len() == length by {
                        assert(partials_view(next@)[k].0.len() == length);
                    }
                }
                i = i + 1;
            }
            partials = next;
        }
        index = index + 1;
    }
    Some(partials)
}

proof fn lemma_fill_amounts_lengths(
    partial: Partial,
    amounts: Seq<U256>,
    index: int,
    total: U256,
    limit: nat,
    from: int,
    next: Seq<Partial>,
    length: nat,
)
    requires
        0 <= index < length,
        partial.0.len() == length,
        forall|i: int| 0 <= i < next.len() ==> (#[trigger] next[i]).0.len() == length,
    ensures
        match fill_amounts_from(partial, amounts, index, total, limit, from, next) {
            Some(filled) => forall|i: int|
                0 <= i < filled.len() ==> (#[trigger] filled[i]).0.len() == length,
            None => true,
        },
    decreases amounts.len() - from,
{
    if from < amounts.len() {
        match sum(partial.1, amounts[from]) {
            None => {
                lemma_fill_amounts_lengths(
                    partial,
                    amounts,
                    index,
                    total,
                    limit,
                    from + 1,
                    next,
                    length,
                );
            },
            Some(updated) => {
                lemma_fill_amounts_lengths(
                    partial,
                    amounts,
                    index,
                    total,
                    limit,
                    from + 1,
                    next,
                    length,
                );
                lemma_fill_amounts_lengths(
                    partial,
                    amounts,
                    index,
                    total,
                    limit,
                    from + 1,
                    next.push((partial.0.update(index, amounts[from]), updated)),
                    length,
                );
            },
        }
    }
}

fn is_executable_row(
    row: &Vec<U256>,
    residual: U256,
    sink_maximum: U256,
    minimum_action: U256,
) -> (r: bool)
    ensures
        r == executable_row(row@, residual, sink_maximum, minimum_action),
{
    if sink_maximum.lt(residual) || (!residual.is_zero() && residual.lt(minimum_action)) {
        return false;
    }
    let mut i: usize = 0;
    while i < row.len()
        invariant
            i <= row.len(),
            forall|k: int| 0 <= k < i ==> !below_minimum(#[trigger] row@[k], minimum_action),
        decreases row.len() - i,
    {
        if !row[i].is_zero() && row[i].lt(minimum_action) {
            assert(below_minimum(row@[i as int], minimum_action));
            return false;
        }
        i = i + 1;
    }
    true
}

fn complete_rows(
    partials: &Vec<(Vec<U256>, U256)>,
    sink: usize,
    sink_maximum: U256,
    total: U256,
    minimum_action: U256,
    limit: usize,
    rows: &mut Vec<Vec<U256>>,
) -> (r: bool)
    requires
        forall|i: int| 0 <= i < partials@.len() ==> sink < (#[trigger] partials@[i]).0.len(),
    ensures
        match complete_from(
            partials_view(partials@),
            sink as int,
            sink_maximum,
            total,
            minimum_action,
            limit as nat,
            0,
            rows_view(old(rows)@),
        ) {
            Some(kept) => r && rows_view(final(rows)@) == kept,
            None => !r,
        },
{
    let ghost held = partials_view(partials@);
    let ghost before = rows_view(rows@);
    let mut i: usize = 0;
    while i < partials.len()
        invariant
            i <= partials.len(),
            held == partials_view(partials@),
            before == rows_view(old(rows)@),
            forall|k: int| 0 <= k < partials@.len() ==> sink < (#[trigger] partials@[k]).0.len(),
            complete_from(
                held,
                sink as int,
                sink_maximum,
                total,
                minimum_action,
                limit as nat,
                0,
                before,
            ) == complete_from(
                held,
                sink as int,
                sink_maximum,
                total,
                minimum_action,
                limit as nat,
                i as int,
                rows_view(rows@),
            ),
        decreases partials.len() - i,
    {
        let residual = total.saturating_sub(partials[i].1);
        assert(held[i as int] == (partials@[i as int].0@, partials@[i as int].1));
        if is_executable_row(&partials[i].0, residual, sink_maximum, minimum_action) {
            let mut row = copy_row(&partials[i].0);
            row.set(sink, residual);
            insert_row(rows, row);
            assert(rows_view(rows@).len() == rows.len());
            if rows.len() > limit {
                return false;
            }
        }
        i = i + 1;
    }
    true
}

/// Enumerates every distribution of `total` over the positions whose amounts come from their
/// lattices but for one position that absorbs the residual.
///
/// Amounts are vault-asset units. Returns nothing when the enumeration would exceed `limit`, so a
/// truncated enumeration is never taken for a complete one.
#[must_use]
pub fn bounded_distributions(
    maximums: &Vec<U256>,
    lattices: &Vec<Vec<U256>>,
    total: U256,
    minimum_action: U256,
    limit: usize,
) -> (r: Option<Vec<Vec<U256>>>)
    requires
        lattices.len() <= maximums.len(),
    ensures
        match bounded_distributions_spec(
            maximums@,
            rows_view(lattices@),
            total,
            minimum_action,
            limit as nat,
        ) {
            Some(rows) => r is Some && rows_view(r->0@) == rows,
            None => r is None,
        },
{
    let ghost views = rows_view(lattices@);
    let ghost goal = bounded_distributions_spec(
        maximums@,
        views,
        total,
        minimum_action,
        limit as nat,
    );
    let mut rows: Vec<Vec<U256>> = Vec::new();
    assert(rows_view(rows@) =~= Seq::<Seq<U256>>::empty());
    let mut sink: usize = 0;
    while sink < maximums.len()
        invariant
            sink <= maximums.len(),
            lattices.len() <= maximums.len(),
            views == rows_view(lattices@),
            goal == bounded_distributions_spec(
                maximums@,
                rows_view(lattices@),
                total,
                minimum_action,
                limit as nat,
            ),
            goal == distributions_from(
                maximums@,
                views,
                total,
                minimum_action,
                limit as nat,
                sink as int,
                rows_view(rows@),
            ),
        decreases maximums.len() - sink,
    {
        let partials = fill_slots(lattices, maximums.len(), sink, total, limit)?;
        if !complete_rows(
            &partials,
            sink,
            maximums[sink],
            total,
            minimum_action,
            limit,
            &mut rows,
        ) {
            return None;
        }
        sink = sink + 1;
    }
    Some(rows)
}

/// Sum of the amounts from index `from` on.
pub open spec fn row_total_from(row: Seq<U256>, from: int) -> nat
    decreases row.len() - from,
{
    if from >= row.len() {
        0
    } else {
        row[from]@ + row_total_from(row, from + 1)
    }
}

pub proof fn lemma_row_total_update(row: Seq<U256>, index: int, amount: U256, from: int)
    requires
        0 <= from <= row.len(),
        0 <= index < row.len(),
    ensures
        row_total_from(row.update(index, amount), from) == row_total_from(row, from) + (if from
            <= index {
            amount@ - row[index]@
        } else {
            0
        }),
    decreases row.len() - from,
{
    if from < row.len() {
        lemma_row_total_update(row, index, amount, from + 1);
    }
}

pub proof fn lemma_zero_row_total(length: nat, from: int)
    requires
        0 <= from <= length,
    ensures
        row_total_from(zero_row(length), from) == 0,
    decreases length - from,
{
    broadcast use group_u256;

    if from < length {
        lemma_zero_row_total(length, from + 1);
    }
}

/// A partial whose slots before `index` come from their lattices and whose other slots, and the
/// sink, are still zero.
spec fn sound_partial(
    partial: Partial,
    lattices: Seq<Seq<U256>>,
    length: nat,
    sink: int,
    total: U256,
    index: int,
) -> bool {
    &&& partial.0.len() == length
    &&& row_total_from(partial.0, 0) == partial.1@
    &&& partial.1@ <= total@
    &&& forall|i: int|
        0 <= i < length && (i >= index || i == sink) ==> (#[trigger] partial.0[i])@ == 0
    &&& forall|i: int|
        0 <= i < index && i != sink && i < length ==> lattices[i].contains(#[trigger] partial.0[i])
}

proof fn lemma_fill_amounts_sound(
    partial: Partial,
    lattices: Seq<Seq<U256>>,
    length: nat,
    sink: int,
    index: int,
    total: U256,
    limit: nat,
    from: int,
    next: Seq<Partial>,
)
    requires
        0 <= index < lattices.len() <= length,
        index != sink,
        0 <= from <= lattices[index].len(),
        sound_partial(partial, lattices, length, sink, total, index),
        forall|i: int|
            0 <= i < next.len() ==> sound_partial(
                #[trigger] next[i],
                lattices,
                length,
                sink,
                total,
                index + 1,
            ),
    ensures
        match fill_amounts_from(partial, lattices[index], index, total, limit, from, next) {
            Some(filled) => forall|i: int|
                0 <= i < filled.len() ==> sound_partial(
                    #[trigger] filled[i],
                    lattices,
                    length,
                    sink,
                    total,
                    index + 1,
                ),
            None => true,
        },
    decreases lattices[index].len() - from,
{
    broadcast use group_u256;

    let amounts = lattices[index];
    if from < amounts.len() {
        lemma_fill_amounts_sound(
            partial,
            lattices,
            length,
            sink,
            index,
            total,
            limit,
            from + 1,
            next,
        );
        if let Some(updated) = sum(partial.1, amounts[from]) {
            if updated@ <= total@ {
                let row = partial.0.update(index, amounts[from]);
                lemma_row_total_update(partial.0, index, amounts[from], 0);
                assert(amounts.contains(amounts[from]));
                assert forall|i: int|
                    0 <= i < index + 1 && i != sink && i < length implies lattices[i].contains(
                    #[trigger] row[i],
                ) by {
                    if i < index {
                        assert(lattices[i].contains(partial.0[i]));
                    }
                }
                assert forall|i: int|
                    0 <= i < length && (i >= index + 1 || i == sink) implies (
                #[trigger] row[i])@ == 0 by {
                    assert(partial.0[i]@ == 0);
                }
                assert(sound_partial((row, updated), lattices, length, sink, total, index + 1));
                lemma_fill_amounts_sound(
                    partial,
                    lattices,
                    length,
                    sink,
                    index,
                    total,
                    limit,
                    from + 1,
                    next.push((row, updated)),
                );
            }
        }
    }
}

proof fn lemma_fill_partials_sound(
    partials: Seq<Partial>,
    lattices: Seq<Seq<U256>>,
    length: nat,
    sink: int,
    index: int,
    total: U256,
    limit: nat,
    from: int,
    next: Seq<Partial>,
)
    requires
        0 <= index < lattices.len() <= length,
        index != sink,
        0 <= from <= partials.len(),
        forall|i: int|
            0 <= i < partials.len() ==> sound_partial(
                #[trigger] partials[i],
                lattices,
                length,
                sink,
                total,
                index,
            ),
        forall|i: int|
            0 <= i < next.len() ==> sound_partial(
                #[trigger] next[i],
                lattices,
                length,
                sink,
                total,
                index + 1,
            ),
    ensures
        match fill_partials_from(partials, lattices[index], index, total, limit, from, next) {
            Some(filled) => forall|i: int|
                0 <= i < filled.len() ==> sound_partial(
                    #[trigger] filled[i],
                    lattices,
                    length,
                    sink,
                    total,
                    index + 1,
                ),
            None => true,
        },
    decreases partials.len() - from,
{
    if from < partials.len() {
        lemma_fill_amounts_sound(
            partials[from],
            lattices,
            length,
            sink,
            index,
            total,
            limit,
            0,
            next,
        );
        if let Some(filled) = fill_amounts_from(
            partials[from],
            lattices[index],
            index,
            total,
            limit,
            0,
            next,
        ) {
            lemma_fill_partials_sound(
                partials,
                lattices,
                length,
                sink,
                index,
                total,
                limit,
                from + 1,
                filled,
            );
        }
    }
}

proof fn lemma_fill_slots_sound(
    lattices: Seq<Seq<U256>>,
    length: nat,
    sink: int,
    total: U256,
    limit: nat,
    index: int,
    partials: Seq<Partial>,
)
    requires
        0 <= index <= lattices.len() <= length,
        forall|i: int|
            0 <= i < partials.len() ==> sound_partial(
                #[trigger] partials[i],
                lattices,
                length,
                sink,
                total,
                index,
            ),
    ensures
        match fill_slots_from(lattices, sink, total, limit, index, partials) {
            Some(filled) => forall|i: int|
                0 <= i < filled.len() ==> sound_partial(
                    #[trigger] filled[i],
                    lattices,
                    length,
                    sink,
                    total,
                    lattices.len() as int,
                ),
            None => true,
        },
    decreases lattices.len() - index,
{
    if index < lattices.len() {
        if index == sink {
            assert forall|i: int| 0 <= i < partials.len() implies sound_partial(
                #[trigger] partials[i],
                lattices,
                length,
                sink,
                total,
                index + 1,
            ) by {
                assert(sound_partial(partials[i], lattices, length, sink, total, index));
            }
            lemma_fill_slots_sound(lattices, length, sink, total, limit, index + 1, partials);
        } else {
            lemma_fill_partials_sound(
                partials,
                lattices,
                length,
                sink,
                index,
                total,
                limit,
                0,
                Seq::empty(),
            );
            if let Some(next) = fill_partials_from(
                partials,
                lattices[index],
                index,
                total,
                limit,
                0,
                Seq::empty(),
            ) {
                lemma_fill_slots_sound(lattices, length, sink, total, limit, index + 1, next);
            }
        }
    }
}

/// Whether a row distributes the total in executable amounts within the maximums.
pub open spec fn distributes(
    row: Seq<U256>,
    maximums: Seq<U256>,
    total: U256,
    minimum_action: U256,
) -> bool {
    &&& row.len() == maximums.len()
    &&& row_total_from(row, 0) == total@
    &&& forall|i: int|
        0 <= i < row.len() ==> !below_minimum(#[trigger] row[i], minimum_action) && row[i]@
            <= maximums[i]@
}

pub proof fn lemma_row_bound(rows: Seq<Seq<U256>>, row: Seq<U256>, from: int)
    requires
        0 <= from <= rows.len(),
    ensures
        from <= row_bound_from(rows, row, from) <= rows.len(),
    decreases rows.len() - from,
{
    if from < rows.len() && row_before_from(rows[from], row, 0) {
        lemma_row_bound(rows, row, from + 1);
    }
}

proof fn lemma_complete_sound(
    partials: Seq<Partial>,
    maximums: Seq<U256>,
    lattices: Seq<Seq<U256>>,
    sink: int,
    total: U256,
    minimum_action: U256,
    limit: nat,
    from: int,
    rows: Seq<Seq<U256>>,
)
    requires
        lattices.len() <= maximums.len(),
        0 <= sink < maximums.len(),
        0 <= from <= partials.len(),
        lattices_within(lattices, maximums),
        rows.len() <= limit,
        forall|i: int|
            0 <= i < partials.len() ==> sound_partial(
                #[trigger] partials[i],
                lattices,
                maximums.len(),
                sink,
                total,
                lattices.len() as int,
            ),
        forall|i: int|
            0 <= i < rows.len() ==> distributes(#[trigger] rows[i], maximums, total, minimum_action),
    ensures
        match complete_from(
            partials,
            sink,
            maximums[sink],
            total,
            minimum_action,
            limit,
            from,
            rows,
        ) {
            Some(kept) => kept.len() <= limit && forall|i: int|
                0 <= i < kept.len() ==> distributes(
                    #[trigger] kept[i],
                    maximums,
                    total,
                    minimum_action,
                ),
            None => true,
        },
    decreases partials.len() - from,
{
    broadcast use group_u256;

    if from < partials.len() {
        let partial = partials[from];
        let residual = saturating_difference(total, partial.1);
        if executable_row(partial.0, residual, maximums[sink], minimum_action) {
            let row = partial.0.update(sink, residual);
            let next = with_row(rows, row);
            lemma_row_total_update(partial.0, sink, residual, 0);
            lemma_row_bound(rows, row, 0);
            assert forall|i: int| 0 <= i < row.len() implies !below_minimum(
                #[trigger] row[i],
                minimum_action,
            ) && row[i]@ <= maximums[i]@ by {
                if i != sink {
                    assert(!below_minimum(partial.0[i], minimum_action));
                    if i < lattices.len() {
                        assert(lattices[i].contains(partial.0[i]));
                        let k = choose|k: int|
                            0 <= k < lattices[i].len() && lattices[i][k] == partial.0[i];
                        assert(lattices[i][k]@ <= maximums[i]@);
                    }
                }
            }
            assert(distributes(row, maximums, total, minimum_action));
            assert forall|i: int| 0 <= i < next.len() implies distributes(
                #[trigger] next[i],
                maximums,
                total,
                minimum_action,
            ) by {
                let at = row_bound_from(rows, row, 0);
                if next != rows {
                    if i > at {
                        assert(next[i] == rows[i - 1]);
                    }
                }
            }
            if next.len() <= limit {
                lemma_complete_sound(
                    partials,
                    maximums,
                    lattices,
                    sink,
                    total,
                    minimum_action,
                    limit,
                    from + 1,
                    next,
                );
            }
        } else {
            lemma_complete_sound(
                partials,
                maximums,
                lattices,
                sink,
                total,
                minimum_action,
                limit,
                from + 1,
                rows,
            );
        }
    }
}

/// Whether every lattice stays within its position maximum.
pub open spec fn lattices_within(lattices: Seq<Seq<U256>>, maximums: Seq<U256>) -> bool {
    forall|i: int, k: int|
        0 <= i < lattices.len() && 0 <= k < lattices[i].len() ==> (#[trigger] lattices[i][k])@
            <= maximums[i]@
}

proof fn lemma_distributions_sound(
    maximums: Seq<U256>,
    lattices: Seq<Seq<U256>>,
    total: U256,
    minimum_action: U256,
    limit: nat,
    sink: int,
    rows: Seq<Seq<U256>>,
)
    requires
        lattices.len() <= maximums.len(),
        0 <= sink <= maximums.len(),
        lattices_within(lattices, maximums),
        rows.len() <= limit,
        forall|i: int|
            0 <= i < rows.len() ==> distributes(#[trigger] rows[i], maximums, total, minimum_action),
    ensures
        match distributions_from(
            maximums,
            lattices,
            total,
            minimum_action,
            limit,
            sink,
            rows,
        ) {
            Some(kept) => kept.len() <= limit && forall|i: int|
                0 <= i < kept.len() ==> distributes(
                    #[trigger] kept[i],
                    maximums,
                    total,
                    minimum_action,
                ),
            None => true,
        },
    decreases maximums.len() - sink,
{
    broadcast use group_u256;

    if sink < maximums.len() {
        let first = seq![(zero_row(maximums.len()), u256(0))];
        lemma_zero_row_total(maximums.len(), 0);
        assert(sound_partial(first[0], lattices, maximums.len(), sink, total, 0));
        lemma_fill_slots_sound(lattices, maximums.len(), sink, total, limit, 0, first);
        if let Some(partials) = fill_slots_from(lattices, sink, total, limit, 0, first) {
            lemma_complete_sound(
                partials,
                maximums,
                lattices,
                sink,
                total,
                minimum_action,
                limit,
                0,
                rows,
            );
            if let Some(next) = complete_from(
                partials,
                sink,
                maximums[sink],
                total,
                minimum_action,
                limit,
                0,
                rows,
            ) {
                lemma_distributions_sound(
                    maximums,
                    lattices,
                    total,
                    minimum_action,
                    limit,
                    sink + 1,
                    next,
                );
            }
        }
    }
}

/// Every enumerated distribution adds up to exactly the total in amounts that are zero or at least
/// the minimum action and within the position maximums, and no more than `limit` are reported.
pub proof fn distributions_conserve_the_total(
    maximums: Seq<U256>,
    lattices: Seq<Seq<U256>>,
    total: U256,
    minimum_action: U256,
    limit: nat,
)
    requires
        lattices.len() <= maximums.len(),
        lattices_within(lattices, maximums),
        bounded_distributions_spec(maximums, lattices, total, minimum_action, limit) is Some,
    ensures
        ({
            let rows = bounded_distributions_spec(
                maximums,
                lattices,
                total,
                minimum_action,
                limit,
            )->0;
            rows.len() <= limit && forall|i: int|
                0 <= i < rows.len() ==> distributes(
                    #[trigger] rows[i],
                    maximums,
                    total,
                    minimum_action,
                )
        }),
{
    lemma_distributions_sound(
        maximums,
        lattices,
        total,
        minimum_action,
        limit,
        0,
        Seq::empty(),
    );
}

proof fn lemma_rows_equal(left: Seq<U256>, right: Seq<U256>, from: int)
    requires
        0 <= from <= left.len(),
        from <= right.len(),
        forall|i: int| 0 <= i < from ==> #[trigger] left[i] == right[i],
        !row_before_from(left, right, from),
        !row_before_from(right, left, from),
    ensures
        left == right,
    decreases left.len() - from,
{
    if from < left.len() && from < right.len() {
        lemma_u256_injective(left[from], right[from]);
        lemma_rows_equal(left, right, from + 1);
    }
    assert(left =~= right);
}

/// Adding a row adds exactly that row.
pub proof fn lemma_row_added(rows: Seq<Seq<U256>>, row: Seq<U256>, other: Seq<U256>)
    ensures
        with_row(rows, row).contains(row),
        with_row(rows, row).contains(other) <==> rows.contains(other) || other == row,
{
    lemma_row_bound(rows, row, 0);
    lemma_row_bound_stops(rows, row, 0);
    let at = row_bound_from(rows, row, 0);
    let updated = with_row(rows, row);
    if at < rows.len() && !row_before_from(row, rows[at], 0) {
        lemma_rows_equal(row, rows[at], 0);
    } else {
        assert(updated[at] == row);
        if updated.contains(other) {
            let i = choose|i: int| 0 <= i < updated.len() && updated[i] == other;
            if i < at {
                assert(rows[i] == other);
            } else if i > at {
                assert(rows[i - 1] == other);
            }
        }
        if rows.contains(other) {
            let i = choose|i: int| 0 <= i < rows.len() && rows[i] == other;
            if i < at {
                assert(updated[i] == other);
            } else {
                assert(updated[i + 1] == other);
            }
        }
    }
}

proof fn lemma_row_bound_stops(rows: Seq<Seq<U256>>, row: Seq<U256>, from: int)
    requires
        0 <= from <= rows.len(),
    ensures
        row_bound_from(rows, row, from) < rows.len() ==> !row_before_from(
            rows[row_bound_from(rows, row, from)],
            row,
            0,
        ),
    decreases rows.len() - from,
{
    if from < rows.len() && row_before_from(rows[from], row, 0) {
        lemma_row_bound_stops(rows, row, from + 1);
    }
}

proof fn lemma_fill_amounts_complete(
    partial: Partial,
    amounts: Seq<U256>,
    index: int,
    total: U256,
    limit: nat,
    from: int,
    next: Seq<Partial>,
    choice: int,
    other: Partial,
)
    requires
        0 <= from <= amounts.len(),
        0 <= choice < amounts.len(),
        partial.1@ + amounts[choice]@ <= total@,
        fill_amounts_from(partial, amounts, index, total, limit, from, next) is Some,
    ensures
        ({
            let filled = fill_amounts_from(partial, amounts, index, total, limit, from, next)->0;
            &&& next.contains(other) ==> filled.contains(other)
            &&& from <= choice ==> filled.contains(
                (partial.0.update(index, amounts[choice]), u256(partial.1@ + amounts[choice]@)),
            )
        }),
    decreases amounts.len() - from,
{
    broadcast use group_u256;

    lemma_u256_range(total);
    if from < amounts.len() {
        let kept = match sum(partial.1, amounts[from]) {
            None => next,
            Some(updated) => if updated@ > total@ {
                next
            } else {
                next.push((partial.0.update(index, amounts[from]), updated))
            },
        };
        assert forall|p: Partial| next.contains(p) implies kept.contains(p) by {
            let i = choose|i: int| 0 <= i < next.len() && next[i] == p;
            assert(kept[i] == p);
        }
        lemma_fill_amounts_complete(
            partial,
            amounts,
            index,
            total,
            limit,
            from + 1,
            kept,
            choice,
            other,
        );
        if from == choice {
            let added = (partial.0.update(index, amounts[choice]), u256(
                partial.1@ + amounts[choice]@,
            ));
            assert(kept[next.len() as int] == added);
            lemma_fill_amounts_complete(
                partial,
                amounts,
                index,
                total,
                limit,
                from + 1,
                kept,
                choice,
                added,
            );
        }
    }
}

proof fn lemma_fill_amounts_keep(
    partial: Partial,
    amounts: Seq<U256>,
    index: int,
    total: U256,
    limit: nat,
    from: int,
    next: Seq<Partial>,
    other: Partial,
)
    requires
        0 <= from <= amounts.len(),
        next.contains(other),
        fill_amounts_from(partial, amounts, index, total, limit, from, next) is Some,
    ensures
        fill_amounts_from(partial, amounts, index, total, limit, from, next)->0.contains(other),
    decreases amounts.len() - from,
{
    if from < amounts.len() {
        let kept = match sum(partial.1, amounts[from]) {
            None => next,
            Some(updated) => if updated@ > total@ {
                next
            } else {
                next.push((partial.0.update(index, amounts[from]), updated))
            },
        };
        let i = choose|i: int| 0 <= i < next.len() && next[i] == other;
        assert(kept[i] == other);
        lemma_fill_amounts_keep(partial, amounts, index, total, limit, from + 1, kept, other);
    }
}

proof fn lemma_fill_partials_complete(
    partials: Seq<Partial>,
    amounts: Seq<U256>,
    index: int,
    total: U256,
    limit: nat,
    from: int,
    next: Seq<Partial>,
    at: int,
    choice: int,
)
    requires
        0 <= from <= partials.len(),
        0 <= at < partials.len(),
        0 <= choice < amounts.len(),
        partials[at].1@ + amounts[choice]@ <= total@,
        fill_partials_from(partials, amounts, index, total, limit, from, next) is Some,
        from > at ==> next.contains(
            (
                partials[at].0.update(index, amounts[choice]),
                u256(partials[at].1@ + amounts[choice]@),
            ),
        ),
    ensures
        fill_partials_from(partials, amounts, index, total, limit, from, next)->0.contains(
            (
                partials[at].0.update(index, amounts[choice]),
                u256(partials[at].1@ + amounts[choice]@),
            ),
        ),
    decreases partials.len() - from,
{
    if from < partials.len() {
        let filled = fill_amounts_from(
            partials[from],
            amounts,
            index,
            total,
            limit,
            0,
            next,
        )->0;
        let wanted = (
            partials[at].0.update(index, amounts[choice]),
            u256(partials[at].1@ + amounts[choice]@),
        );
        if from == at {
            lemma_fill_amounts_complete(
                partials[at],
                amounts,
                index,
                total,
                limit,
                0,
                next,
                choice,
                wanted,
            );
        } else if from > at {
            lemma_fill_amounts_keep(partials[from], amounts, index, total, limit, 0, next, wanted);
        }
        lemma_fill_partials_complete(
            partials,
            amounts,
            index,
            total,
            limit,
            from + 1,
            filled,
            at,
            choice,
        );
    }
}

/// The row with only the slots before `index` filled, and not the sink.
spec fn filled_before(row: Seq<U256>, sink: int, index: int) -> Seq<U256> {
    Seq::new(
        row.len(),
        |i: int|
            if i < index && i != sink {
                row[i]
            } else {
                u256(0)
            },
    )
}

/// Whether the partials hold the row filled before `index`, with its sum.
spec fn holds_partial(
    partials: Seq<Partial>,
    row: Seq<U256>,
    sink: int,
    index: int,
    filled: nat,
) -> bool {
    partials.contains((filled_before(row, sink, index), u256(filled)))
}

proof fn lemma_fill_slots_complete(
    lattices: Seq<Seq<U256>>,
    sink: int,
    total: U256,
    limit: nat,
    index: int,
    partials: Seq<Partial>,
    row: Seq<U256>,
    filled: nat,
)
    requires
        0 <= index <= lattices.len(),
        row.len() == lattices.len(),
        0 <= sink < row.len(),
        forall|i: int|
            0 <= i < row.len() && i != sink ==> lattices[i].contains(#[trigger] row[i]),
        filled + row_total_from(row.update(sink, u256(0)), index) <= total@,
        holds_partial(partials, row, sink, index, filled),
        fill_slots_from(lattices, sink, total, limit, index, partials) is Some,
    ensures
        holds_partial(
            fill_slots_from(lattices, sink, total, limit, index, partials)->0,
            row,
            sink,
            row.len() as int,
            filled + row_total_from(row.update(sink, u256(0)), index),
        ),
    decreases lattices.len() - index,
{
    broadcast use group_u256;

    lemma_u256_range(total);
    let others = row.update(sink, u256(0));
    if index < lattices.len() {
        assert(row_total_from(others, index) == others[index]@ + row_total_from(
            others,
            index + 1,
        ));
        if index == sink {
            assert(filled_before(row, sink, index) =~= filled_before(row, sink, index + 1));
            lemma_fill_slots_complete(
                lattices,
                sink,
                total,
                limit,
                index + 1,
                partials,
                row,
                filled,
            );
        } else {
            let current = (filled_before(row, sink, index), u256(filled));
            let at = choose|i: int| 0 <= i < partials.len() && partials[i] == current;
            assert(lattices[index].contains(row[index]));
            let choice = choose|j: int|
                0 <= j < lattices[index].len() && lattices[index][j] == row[index];
            let next = fill_partials_from(
                partials,
                lattices[index],
                index,
                total,
                limit,
                0,
                Seq::empty(),
            )->0;
            lemma_fill_partials_complete(
                partials,
                lattices[index],
                index,
                total,
                limit,
                0,
                Seq::empty(),
                at,
                choice,
            );
            assert(filled_before(row, sink, index).update(index, row[index]) =~= filled_before(
                row,
                sink,
                index + 1,
            ));
            lemma_fill_slots_complete(
                lattices,
                sink,
                total,
                limit,
                index + 1,
                next,
                row,
                filled + row[index]@,
            );
        }
    }
}

proof fn lemma_complete_keeps(
    partials: Seq<Partial>,
    sink: int,
    sink_maximum: U256,
    total: U256,
    minimum_action: U256,
    limit: nat,
    from: int,
    rows: Seq<Seq<U256>>,
    at: int,
    wanted: Seq<U256>,
)
    requires
        0 <= from <= partials.len(),
        rows.contains(wanted) || (from <= at < partials.len() && executable_row(
            partials[at].0,
            saturating_difference(total, partials[at].1),
            sink_maximum,
            minimum_action,
        ) && partials[at].0.update(sink, saturating_difference(total, partials[at].1)) == wanted),
        complete_from(
            partials,
            sink,
            sink_maximum,
            total,
            minimum_action,
            limit,
            from,
            rows,
        ) is Some,
    ensures
        complete_from(
            partials,
            sink,
            sink_maximum,
            total,
            minimum_action,
            limit,
            from,
            rows,
        )->0.contains(wanted),
    decreases partials.len() - from,
{
    if from < partials.len() {
        let residual = saturating_difference(total, partials[from].1);
        let next = if executable_row(partials[from].0, residual, sink_maximum, minimum_action) {
            lemma_row_added(rows, partials[from].0.update(sink, residual), wanted);
            with_row(rows, partials[from].0.update(sink, residual))
        } else {
            rows
        };
        lemma_complete_keeps(
            partials,
            sink,
            sink_maximum,
            total,
            minimum_action,
            limit,
            from + 1,
            next,
            at,
            wanted,
        );
    }
}

/// Whether every amount of a row but that of the sink is one of its position's choices.
pub open spec fn chosen_from(row: Seq<U256>, lattices: Seq<Seq<U256>>, sink: int) -> bool {
    forall|i: int| 0 <= i < row.len() && i != sink ==> lattices[i].contains(#[trigger] row[i])
}

proof fn lemma_sink_complete(
    maximums: Seq<U256>,
    lattices: Seq<Seq<U256>>,
    total: U256,
    minimum_action: U256,
    limit: nat,
    sink: int,
    rows: Seq<Seq<U256>>,
    row: Seq<U256>,
    partials: Seq<Partial>,
)
    requires
        lattices.len() == maximums.len(),
        0 <= sink < maximums.len(),
        distributes(row, maximums, total, minimum_action),
        chosen_from(row, lattices, sink),
        fill_slots_from(
            lattices,
            sink,
            total,
            limit,
            0,
            seq![(zero_row(maximums.len()), u256(0))],
        ) == Some(partials),
        complete_from(
            partials,
            sink,
            maximums[sink],
            total,
            minimum_action,
            limit,
            0,
            rows,
        ) is Some,
    ensures
        complete_from(
            partials,
            sink,
            maximums[sink],
            total,
            minimum_action,
            limit,
            0,
            rows,
        )->0.contains(row),
{
    broadcast use group_u256;

    let first = seq![(zero_row(maximums.len()), u256(0))];
    let length = row.len() as int;
    lemma_u256_range(total);
    lemma_row_total_update(row, sink, u256(0), 0);
    assert(filled_before(row, sink, 0) =~= zero_row(maximums.len()));
    assert(first[0] == (filled_before(row, sink, 0), u256(0)));
    assert(holds_partial(first, row, sink, 0, 0));
    lemma_fill_slots_complete(lattices, sink, total, limit, 0, first, row, 0);
    let others = row_total_from(row.update(sink, u256(0)), 0);
    assert(others + row[sink]@ == total@);
    let at = choose|i: int|
        0 <= i < partials.len() && partials[i] == (
            filled_before(row, sink, length),
            u256(others),
        );
    let residual = saturating_difference(total, partials[at].1);
    assert(residual@ == row[sink]@);
    lemma_u256_injective(residual, row[sink]);
    assert(partials[at].0.update(sink, residual) =~= row);
    assert(executable_row(partials[at].0, residual, maximums[sink], minimum_action)) by {
        assert forall|i: int| 0 <= i < length implies !below_minimum(
            #[trigger] partials[at].0[i],
            minimum_action,
        ) by {
            assert(!below_minimum(row[i], minimum_action));
        }
        assert(!below_minimum(row[sink], minimum_action));
    }
    lemma_complete_keeps(
        partials,
        sink,
        maximums[sink],
        total,
        minimum_action,
        limit,
        0,
        rows,
        at,
        row,
    );
}

proof fn lemma_distributions_complete(
    maximums: Seq<U256>,
    lattices: Seq<Seq<U256>>,
    total: U256,
    minimum_action: U256,
    limit: nat,
    from: int,
    rows: Seq<Seq<U256>>,
    row: Seq<U256>,
    sink: int,
)
    requires
        lattices.len() == maximums.len(),
        0 <= from <= maximums.len(),
        rows.contains(row) || (from <= sink < maximums.len() && distributes(
            row,
            maximums,
            total,
            minimum_action,
        ) && chosen_from(row, lattices, sink)),
        distributions_from(maximums, lattices, total, minimum_action, limit, from, rows) is Some,
    ensures
        distributions_from(
            maximums,
            lattices,
            total,
            minimum_action,
            limit,
            from,
            rows,
        )->0.contains(row),
    decreases maximums.len() - from,
{
    if from < maximums.len() {
        let partials = fill_slots_from(
            lattices,
            from,
            total,
            limit,
            0,
            seq![(zero_row(maximums.len()), u256(0))],
        )->0;
        let next = complete_from(
            partials,
            from,
            maximums[from],
            total,
            minimum_action,
            limit,
            0,
            rows,
        )->0;
        if rows.contains(row) {
            lemma_complete_keeps(
                partials,
                from,
                maximums[from],
                total,
                minimum_action,
                limit,
                0,
                rows,
                -1,
                row,
            );
        } else if from == sink {
            lemma_sink_complete(
                maximums,
                lattices,
                total,
                minimum_action,
                limit,
                sink,
                rows,
                row,
                partials,
            );
        }
        lemma_distributions_complete(
            maximums,
            lattices,
            total,
            minimum_action,
            limit,
            from + 1,
            next,
            row,
            sink,
        );
    }
}

/// No distribution is missed: every row that adds up to the total in executable amounts within the
/// maximums, and whose amounts but one are choices of their positions, is enumerated.
pub proof fn distributions_are_complete(
    maximums: Seq<U256>,
    lattices: Seq<Seq<U256>>,
    total: U256,
    minimum_action: U256,
    limit: nat,
    row: Seq<U256>,
    sink: int,
)
    requires
        lattices.len() == maximums.len(),
        0 <= sink < maximums.len(),
        bounded_distributions_spec(maximums, lattices, total, minimum_action, limit) is Some,
        distributes(row, maximums, total, minimum_action),
        forall|i: int|
            0 <= i < row.len() && i != sink ==> lattices[i].contains(#[trigger] row[i]),
    ensures
        bounded_distributions_spec(
            maximums,
            lattices,
            total,
            minimum_action,
            limit,
        )->0.contains(row),
{
    lemma_distributions_complete(
        maximums,
        lattices,
        total,
        minimum_action,
        limit,
        0,
        Seq::empty(),
        row,
        sink,
    );
}

} // verus!
