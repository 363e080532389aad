//! Bounded deterministic candidate-lattice construction.

use vstd::arithmetic::power2::pow2;
use vstd::prelude::*;

use crate::collections::{
    has_key, has_key_is_membership, strictly_increasing, with_key, with_key_is_insertion,
    OrderedKey, OrderedSet,
};
use crate::primitives::{
    b256, big_endian, group_b256, group_u256, keccak256, keccak256_digest, smaller, u256, B256,
    U256,
};

verus! {

/// Canonical per-position candidate amount lattice.
#[derive(Debug)]
pub struct CandidateLattice {
    /// Sorted unique asset amounts.
    pub amounts: Vec<U256>,
    /// Hash of 32-byte big-endian amounts in sorted order.
    pub hash: B256,
}

/// 32-byte big-endian words of the amounts from index `from` on, appended to `done`.
pub open spec fn words_from(amounts: Seq<U256>, from: int, done: Seq<u8>) -> Seq<u8>
    decreases amounts.len() - from,
{
    if from >= amounts.len() {
        done
    } else {
        words_from(amounts, from + 1, done + big_endian(amounts[from]@, 32))
    }
}

/// Hash that identifies a lattice.
pub open spec fn lattice_hash(amounts: Seq<U256>) -> B256 {
    b256(keccak256_digest(words_from(amounts, 0, Seq::empty())))
}

/// Appends bytes to a buffer.
pub(crate) fn append_bytes(buffer: &mut Vec<u8>, bytes: &Vec<u8>)
    ensures
        final(buffer)@ == old(buffer)@ + bytes@,
{
    let mut i: usize = 0;
    while i < bytes.len()
        invariant
            i <= bytes.len(),
            buffer@ == old(buffer)@ + bytes@.subrange(0, i as int),
        decreases bytes.len() - i,
    {
        buffer.push(bytes[i]);
        i = i + 1;
        assert(buffer@ =~= old(buffer)@ + bytes@.subrange(0, i as int));
    }
    assert(bytes@.subrange(0, i as int) =~= bytes@);
}

fn hash_amounts(amounts: &Vec<U256>) -> (r: B256)
    ensures
        r == lattice_hash(amounts@),
{
    broadcast use group_b256;

    let mut encoded: Vec<u8> = Vec::new();
    let mut i: usize = 0;
    while i < amounts.len()
        invariant
            i <= amounts.len(),
            words_from(amounts@, 0, Seq::empty()) == words_from(amounts@, i as int, encoded@),
        decreases amounts.len() - i,
    {
        append_bytes(&mut encoded, &amounts[i].to_be_bytes());
        i = i + 1;
    }
    keccak256(encoded.as_slice())
}

/// A boundary with the amounts one unit below and above it, within `0 ..= maximum`.
pub open spec fn neighborhood(value: U256, maximum: U256) -> Seq<U256> {
    (if value@ > 0 {
        seq![u256((value@ - 1) as nat)]
    } else {
        seq![]
    }) + seq![value] + (if value@ < maximum@ {
        seq![u256(value@ + 1)]
    } else {
        seq![]
    })
}

fn push_neighborhood(priority: &mut Vec<U256>, value: U256, maximum: U256)
    requires
        value@ <= maximum@,
    ensures
        final(priority)@ == old(priority)@ + neighborhood(value, maximum),
{
    broadcast use group_u256;

    if !value.is_zero() {
        if let Some(neighbor) = value.checked_sub(U256::one()) {
            priority.push(neighbor);
        }
    }
    priority.push(value);
    if value.lt(maximum) {
        if let Some(neighbor) = value.checked_add(U256::one()) {
            priority.push(neighbor);
        }
    }
    assert(priority@ =~= old(priority)@ + neighborhood(value, maximum));
}

/// Boundaries from index `from` on, each cut to the maximum, appended to `done`.
pub open spec fn cut_boundaries_from(
    boundaries: Seq<U256>,
    maximum: U256,
    from: int,
    done: Seq<U256>,
) -> Seq<U256>
    decreases boundaries.len() - from,
{
    if from >= boundaries.len() {
        done
    } else {
        cut_boundaries_from(
            boundaries,
            maximum,
            from + 1,
            done.push(smaller(boundaries[from], maximum)),
        )
    }
}

/// Neighborhoods of the boundaries from index `from` on, appended to `done`.
pub open spec fn neighborhoods_from(
    boundaries: Seq<U256>,
    maximum: U256,
    from: int,
    done: Seq<U256>,
) -> Seq<U256>
    decreases boundaries.len() - from,
{
    if from >= boundaries.len() {
        done
    } else {
        neighborhoods_from(
            boundaries,
            maximum,
            from + 1,
            done + neighborhood(smaller(boundaries[from], maximum), maximum),
        )
    }
}

/// The first sixteen binary fractions of the maximum.
pub open spec fn binary_fractions(maximum: U256) -> Seq<U256> {
    Seq::new(16, |k: int| u256(maximum@ / (pow2((k + 1) as nat))))
}

/// Amounts in order of preference: zero, the minimum action, the maximum, the given boundaries,
/// their neighbors, and binary fractions of the maximum.
pub open spec fn amount_priority(
    minimum_action: U256,
    maximum: U256,
    boundaries: Seq<U256>,
) -> Seq<U256> {
    let exact = cut_boundaries_from(
        boundaries,
        maximum,
        0,
        seq![u256(0), smaller(minimum_action, maximum), maximum],
    );
    neighborhoods_from(seq![u256(0), minimum_action, maximum] + boundaries, maximum, 0, exact)
        + binary_fractions(maximum)
}

/// Amounts chosen from the priority list from index `from` on: the first `limit` distinct ones
/// within the maximum, kept in increasing order.
pub open spec fn chosen_from(
    priority: Seq<U256>,
    maximum: U256,
    limit: nat,
    from: int,
    chosen: Seq<U256>,
) -> Seq<U256>
    decreases priority.len() - from,
{
    if from >= priority.len() {
        chosen
    } else if priority[from]@ <= maximum@ && !has_key(chosen, priority[from]) {
        let next = with_key(chosen, priority[from]);
        if next.len() == limit {
            next
        } else {
            chosen_from(priority, maximum, limit, from + 1, next)
        }
    } else {
        chosen_from(priority, maximum, limit, from + 1, chosen)
    }
}

/// Effective number of amounts a limit allows.
pub open spec fn effective_limit(limit: usize) -> nat {
    if limit == 0 {
        1
    } else {
        limit as nat
    }
}

/// Amounts of the frozen lattice: every amount when they all fit the limit, otherwise the
/// preferred ones.
pub open spec fn lattice_amounts(
    minimum_action: U256,
    maximum: U256,
    boundaries: Seq<U256>,
    limit: usize,
) -> Seq<U256> {
    if maximum@ + 1 <= effective_limit(limit) {
        Seq::new(maximum@ + 1, |i: int| u256(i as nat))
    } else {
        chosen_from(
            amount_priority(minimum_action, maximum, boundaries),
            maximum,
            effective_limit(limit),
            0,
            Seq::empty(),
        )
    }
}

fn all_amounts(maximum: usize) -> (r: Vec<U256>)
    requires
        maximum < usize::MAX,
    ensures
        r@ == Seq::new((maximum + 1) as nat, |i: int| u256(i as nat)),
{
    let mut amounts: Vec<U256> = Vec::new();
    let mut i: usize = 0;
    while i <= maximum
        invariant
            i <= maximum + 1,
            maximum < usize::MAX,
            amounts@ == Seq::new(i as nat, |j: int| u256(j as nat)),
        decreases maximum + 1 - i,
    {
        amounts.push(U256::from_u64(i as u64));
        i = i + 1;
        assert(amounts@ =~= Seq::new(i as nat, |j: int| u256(j as nat)));
    }
    amounts
}

fn push_fractions(priority: &mut Vec<U256>, maximum: U256)
    ensures
        final(priority)@ == old(priority)@ + binary_fractions(maximum),
{
    broadcast use group_u256;

    let mut divisor = U256::from_u64(2);
    let mut k: usize = 0;
    proof {
        vstd::arithmetic::power2::lemma2_to64();
    }
    while k < 16
        invariant
            k <= 16,
            divisor@ == pow2((k + 1) as nat),
            priority@ == old(priority)@ + binary_fractions(maximum).subrange(0, k as int),
        decreases 16 - k,
    {
        broadcast use group_u256;

        proof {
            vstd::arithmetic::power2::lemma2_to64();
            vstd::arithmetic::power2::lemma_pow2_unfold((k + 2) as nat);
            vstd::arithmetic::power2::lemma_pow2_pos((k + 1) as nat);
            vstd::arithmetic::power2::lemma_pow2_strictly_increases((k + 2) as nat, 64);
            assert(divisor@ * u256(2)@ == 2 * divisor@) by (nonlinear_arith)
                requires
                    u256(2)@ == 2,
            ;
        }
        if let Some(fraction) = maximum.checked_div(divisor) {
            priority.push(fraction);
        }
        if let Some(next) = divisor.checked_mul(U256::from_u64(2)) {
            divisor = next;
        }
        k = k + 1;
        assert(priority@ =~= old(priority)@ + binary_fractions(maximum).subrange(0, k as int));
    }
    assert(binary_fractions(maximum).subrange(0, 16) =~= binary_fractions(maximum));
}

fn rank_amounts(minimum_action: U256, maximum: U256, boundaries: &Vec<U256>) -> (r: Vec<U256>)
    ensures
        r@ == amount_priority(minimum_action, maximum, boundaries@),
{
    let mut priority: Vec<U256> = vec![U256::zero(), minimum_action.min(maximum), maximum];
    let ghost first = seq![u256(0), smaller(minimum_action, maximum), maximum];
    assert(priority@ =~= first);
    let mut i: usize = 0;
    while i < boundaries.len()
        invariant
            i <= boundaries.len(),
            cut_boundaries_from(boundaries@, maximum, 0, first) == cut_boundaries_from(
                boundaries@,
                maximum,
                i as int,
                priority@,
            ),
        decreases boundaries.len() - i,
    {
        priority.push(boundaries[i].min(maximum));
        i = i + 1;
    }
    let ghost exact = priority@;
    let mut probes: Vec<U256> = vec![U256::zero(), minimum_action, maximum];
    let mut j: usize = 0;
    while j < boundaries.len()
        invariant
            j <= boundaries.len(),
            probes@ == seq![u256(0), minimum_action, maximum] + boundaries@.subrange(0, j as int),
        decreases boundaries.len() - j,
    {
        probes.push(boundaries[j]);
        j = j + 1;
        assert(probes@ =~= seq![u256(0), minimum_action, maximum] + boundaries@.subrange(
            0,
            j as int,
        ));
    }
    assert(boundaries@.subrange(0, j as int) =~= boundaries@);
    let mut k: usize = 0;
    while k < probes.len()
        invariant
            k <= probes.len(),
            neighborhoods_from(probes@, maximum, 0, exact) == neighborhoods_from(
                probes@,
                maximum,
                k as int,
                priority@,
            ),
        decreases probes.len() - k,
    {
        push_neighborhood(&mut priority, probes[k].min(maximum), maximum);
        k = k + 1;
    }
    push_fractions(&mut priority, maximum);
    priority
}

fn choose_amounts(priority: &Vec<U256>, maximum: U256, limit: usize) -> (r: Vec<U256>)
    requires
        limit > 0,
    ensures
        r@ == chosen_from(priority@, maximum, limit as nat, 0, Seq::empty()),
{
    let mut chosen: OrderedSet<U256> = OrderedSet::new();
    let mut full = false;
    let mut i: usize = 0;
    while i < priority.len() && !full
        invariant
            i <= priority.len(),
            full ==> chosen_from(priority@, maximum, limit as nat, 0, Seq::empty()) == chosen@,
            !full ==> chosen_from(priority@, maximum, limit as nat, 0, Seq::empty())
                == chosen_from(priority@, maximum, limit as nat, i as int, chosen@),
        decreases priority.len() - i,
    {
        if priority[i].le(maximum) && chosen.insert(priority[i]) {
            full = chosen.len() == limit;
        }
        i = i + 1;
    }
    let mut amounts: Vec<U256> = Vec::new();
    let mut k: usize = 0;
    while k < chosen.len()
        invariant
            k <= chosen@.len(),
            amounts@ == chosen@.subrange(0, k as int),
        decreases chosen@.len() - k,
    {
        amounts.push(chosen.at(k));
        k = k + 1;
        assert(amounts@ =~= chosen@.subrange(0, k as int));
    }
    assert(amounts@ =~= chosen@);
    amounts
}

/// Builds the frozen amount lattice from exact boundaries and binary fractions.
///
/// Inputs and outputs are vault-asset units. Truncation to `limit` follows the priority of the
/// amounts: zero always survives, the minimum action and the maximum survive from a limit of three
/// on, and each further unit of the limit keeps the next of the given boundaries. Neighbor probes
/// and binary fractions crowd out none of these.
#[must_use]
pub fn build_candidate_lattice(
    minimum_action: U256,
    maximum: U256,
    prioritized_boundaries: &Vec<U256>,
    limit: usize,
) -> (r: CandidateLattice)
    ensures
        r.amounts@ == lattice_amounts(minimum_action, maximum, prioritized_boundaries@, limit),
        r.hash == lattice_hash(r.amounts@),
{
    let bound: usize = if limit == 0 {
        1
    } else {
        limit
    };
    let small: Option<usize> = match maximum.to_usize() {
        Some(value) => if value < bound {
            Some(value)
        } else {
            None
        },
        None => None,
    };
    let amounts = match small {
        Some(value) => all_amounts(value),
        None => choose_amounts(
            &rank_amounts(minimum_action, maximum, prioritized_boundaries),
            maximum,
            bound,
        ),
    };
    let hash = hash_amounts(&amounts);
    CandidateLattice { amounts, hash }
}

proof fn lemma_chosen_from(
    priority: Seq<U256>,
    maximum: U256,
    limit: nat,
    from: int,
    chosen: Seq<U256>,
)
    requires
        0 <= from <= priority.len(),
        strictly_increasing(chosen),
        chosen.len() < limit,
        forall|i: int| 0 <= i < chosen.len() ==> (#[trigger] chosen[i])@ <= maximum@,
    ensures
        ({
            let all = chosen_from(priority, maximum, limit, from, chosen);
            &&& strictly_increasing(all)
            &&& all.len() <= limit
            &&& forall|i: int| 0 <= i < all.len() ==> (#[trigger] all[i])@ <= maximum@
            &&& forall|amount: U256| chosen.contains(amount) ==> #[trigger] all.contains(amount)
            &&& forall|i: int|
                from <= i < priority.len() && i - from < limit - chosen.len() && (
                #[trigger] priority[i])@ <= maximum@ ==> all.contains(priority[i])
        }),
    decreases priority.len() - from,
{
    if from < priority.len() {
        let amount = priority[from];
        has_key_is_membership(chosen, amount);
        with_key_is_insertion(chosen, amount);
        crate::collections::lemma_lower_bound(chosen, amount, 0);
        let next = with_key(chosen, amount);
        assert forall|other: U256| next.contains(other) == (chosen.contains(other) || other
            == amount) by {
            assert(next.to_set().contains(other) == chosen.to_set().insert(amount).contains(other));
        }
        if amount@ <= maximum@ && !has_key(chosen, amount) {
            assert forall|i: int| 0 <= i < next.len() implies (#[trigger] next[i])@
                <= maximum@ by {
                assert(next.contains(next[i]));
                if next[i] != amount {
                    let k = choose|k: int| 0 <= k < chosen.len() && chosen[k] == next[i];
                }
            }
            if next.len() != limit {
                lemma_chosen_from(priority, maximum, limit, from + 1, next);
            }
        } else {
            lemma_chosen_from(priority, maximum, limit, from + 1, chosen);
        }
    }
}

/// A lattice is strictly increasing, holds no amount above the maximum and no more amounts than
/// the limit. Zero is always a member; the minimum action and the maximum are as soon as the limit
/// allows three amounts, and each given boundary, cut to the maximum, as soon as the limit allows one
/// amount for it and each boundary before it.
pub proof fn lattice_keeps_exact_boundaries(
    minimum_action: U256,
    maximum: U256,
    boundaries: Seq<U256>,
    limit: usize,
)
    ensures
        ({
            let amounts = lattice_amounts(minimum_action, maximum, boundaries, limit);
            &&& strictly_increasing(amounts)
            &&& amounts.len() <= effective_limit(limit)
            &&& forall|i: int| 0 <= i < amounts.len() ==> (#[trigger] amounts[i])@ <= maximum@
            &&& amounts.contains(u256(0))
            &&& limit >= 3 ==> amounts.contains(maximum) && amounts.contains(
                smaller(minimum_action, maximum),
            )
            &&& forall|k: int|
                0 <= k < boundaries.len() && k + 3 < limit ==> amounts.contains(
                    smaller(#[trigger] boundaries[k], maximum),
                )
        }),
{
    broadcast use group_u256;

    let amounts = lattice_amounts(minimum_action, maximum, boundaries, limit);
    if maximum@ + 1 <= effective_limit(limit) {
        assert(amounts[0] == u256(0));
        assert(amounts[maximum@ as int] == maximum);
        assert(amounts[smaller(minimum_action, maximum)@ as int] == smaller(
            minimum_action,
            maximum,
        ));
        assert forall|k: int| 0 <= k < boundaries.len() implies amounts.contains(
            smaller(#[trigger] boundaries[k], maximum),
        ) by {
            let cut = smaller(boundaries[k], maximum);
            assert(amounts[cut@ as int] == cut);
        }
        assert forall|i: int, j: int| 0 <= i < j < amounts.len() implies #[trigger] amounts[i].rank()
            < #[trigger] amounts[j].rank() by {
            assert(u256(i as nat)@ == i && u256(j as nat)@ == j);
        }
    } else {
        let priority = amount_priority(minimum_action, maximum, boundaries);
        let first = seq![u256(0), smaller(minimum_action, maximum), maximum];
        lemma_cut_boundaries_extend(boundaries, maximum, 0, first);
        let exact = cut_boundaries_from(boundaries, maximum, 0, first);
        let probes = seq![u256(0), minimum_action, maximum] + boundaries;
        lemma_neighborhoods_extend(probes, maximum, 0, exact);
        lemma_chosen_from(priority, maximum, effective_limit(limit), 0, Seq::empty());
        assert(priority[0] == u256(0));
        assert(priority[1] == smaller(minimum_action, maximum));
        assert(priority[2] == maximum);
        assert forall|k: int| 0 <= k < boundaries.len() && k + 3 < limit implies amounts.contains(
            smaller(#[trigger] boundaries[k], maximum),
        ) by {
            assert(exact[3 + k] == smaller(boundaries[k], maximum));
            assert(priority[3 + k] == exact[3 + k]);
        }
    }
}

proof fn lemma_cut_boundaries_extend(
    boundaries: Seq<U256>,
    maximum: U256,
    from: int,
    done: Seq<U256>,
)
    requires
        0 <= from <= boundaries.len(),
    ensures
        ({
            let all = cut_boundaries_from(boundaries, maximum, from, done);
            &&& done.is_prefix_of(all)
            &&& all.len() == done.len() + boundaries.len() - from
            &&& forall|k: int|
                from <= k < boundaries.len() ==> all[done.len() + k - from] == smaller(
                    #[trigger] boundaries[k],
                    maximum,
                )
        }),
    decreases boundaries.len() - from,
{
    if from < boundaries.len() {
        let next = done.push(smaller(boundaries[from], maximum));
        lemma_cut_boundaries_extend(boundaries, maximum, from + 1, next);
        assert(done =~= next.subrange(0, done.len() as int));
        assert(next[done.len() as int] == smaller(boundaries[from], maximum));
    }
}

proof fn lemma_neighborhoods_extend(
    boundaries: Seq<U256>,
    maximum: U256,
    from: int,
    done: Seq<U256>,
)
    ensures
        done.is_prefix_of(neighborhoods_from(boundaries, maximum, from, done)),
    decreases boundaries.len() - from,
{
    if from < boundaries.len() {
        let next = done + neighborhood(smaller(boundaries[from], maximum), maximum);
        lemma_neighborhoods_extend(boundaries, maximum, from + 1, next);
        assert(done =~= next.subrange(0, done.len() as int));
    }
}

} // verus!
