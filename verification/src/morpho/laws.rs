//! What the protocol arithmetic promises, stated on plain integers.

use vstd::arithmetic::div_mod::lemma_fundamental_div_mod;
use vstd::arithmetic::power::pow;
use vstd::prelude::*;

use crate::domain::{
    AdapterAddress, CapRef, CapState, ParentAccounting, ProjectedMarketState, RewardPolicy,
    StoredMarketState, VaultV1LiquidityAdapterState,
};
use crate::morpho::blue_math::{
    mul_div_down_spec, mul_div_up_spec, to_supply_assets_down_spec, to_supply_assets_up_spec,
    to_supply_shares_down_spec, to_supply_shares_up_spec, w_div_down_spec, w_mul_down_spec,
    w_taylor_compounded_spec,
};
use crate::morpho::fees::{accrue_market_spec, spot_rates_spec};
use crate::morpho::market_adapter::{allocate_spec, deallocate_spec, expected_adapter_assets_spec};
use crate::morpho::rewards::reward_contribution_spec;
use crate::morpho::vault_v1_adapter::{
    preview_deposit_spec, preview_redeem_spec, preview_withdraw_spec, v1_allocate_spec,
    v1_deallocate_spec,
};
use crate::morpho::vault_v2::{accrue_parent_spec, values_sum_from};
use crate::primitives::{group_i256, group_u256, u256, word_modulus, U256};
use crate::state::caps::cap_admits;

verus! {

/// One in WAD units.
pub open spec fn one_wad() -> int {
    1_000_000_000_000_000_000
}

/// Whether `quotient` is `numerator / denominator` rounded down.
pub open spec fn is_floor(quotient: int, numerator: int, denominator: int) -> bool {
    quotient * denominator <= numerator < (quotient + 1) * denominator
}

/// Whether `quotient` is `numerator / denominator` rounded up.
pub open spec fn is_ceiling(quotient: int, numerator: int, denominator: int) -> bool {
    (quotient - 1) * denominator < numerator <= quotient * denominator
}

proof fn lemma_floor(numerator: int, denominator: int)
    requires
        0 <= numerator,
        0 < denominator,
    ensures
        is_floor(numerator / denominator, numerator, denominator),
        0 <= numerator / denominator <= numerator,
{
    lemma_fundamental_div_mod(numerator, denominator);
    let q = numerator / denominator;
    assert(q * denominator <= numerator < (q + 1) * denominator && 0 <= q <= numerator)
        by (nonlinear_arith)
        requires
            numerator == denominator * q + numerator % denominator,
            0 <= numerator % denominator < denominator,
            q == numerator / denominator,
            0 <= numerator,
            0 < denominator,
    ;
}

/// A multiplied and divided amount is the exact quotient rounded down, and is refused only for a
/// zero denominator or a product beyond 256 bits.
pub proof fn division_rounds_down(x: U256, y: U256, denominator: U256)
    ensures
        mul_div_down_spec(x, y, denominator) is Ok <==> denominator@ != 0 && x@ * y@
            < word_modulus(),
        mul_div_down_spec(x, y, denominator) is Ok ==> is_floor(
            mul_div_down_spec(x, y, denominator)->Ok_0@ as int,
            (x@ * y@) as int,
            denominator@ as int,
        ),
{
    broadcast use group_u256;

    if denominator@ != 0 && x@ * y@ < word_modulus() {
        lemma_floor((x@ * y@) as int, denominator@ as int);
    }
}

/// A multiplied amount divided upward is the exact quotient rounded up, and is refused only for a
/// zero denominator or a numerator that leaves 256 bits.
pub proof fn division_rounds_up(x: U256, y: U256, denominator: U256)
    ensures
        mul_div_up_spec(x, y, denominator) is Ok <==> denominator@ != 0 && x@ * y@ + denominator@
            <= word_modulus(),
        mul_div_up_spec(x, y, denominator) is Ok ==> is_ceiling(
            mul_div_up_spec(x, y, denominator)->Ok_0@ as int,
            (x@ * y@) as int,
            denominator@ as int,
        ),
{
    broadcast use group_u256;

    if denominator@ != 0 && x@ * y@ + denominator@ <= word_modulus() {
        let n = (x@ * y@ + denominator@ - 1) as int;
        let d = denominator@ as int;
        lemma_floor(n, d);
        let q = n / d;
        assert((q - 1) * d < n - d + 1 <= q * d) by (nonlinear_arith)
            requires
                q * d <= n < (q + 1) * d,
                d >= 1,
        ;
    }
}

/// Products and quotients of WAD values are scaled by one WAD and rounded down.
pub proof fn wad_arithmetic_is_scaled(x: U256, y: U256)
    ensures
        w_mul_down_spec(x, y) is Ok ==> is_floor(
            w_mul_down_spec(x, y)->Ok_0@ as int,
            (x@ * y@) as int,
            one_wad(),
        ),
        w_div_down_spec(x, y) is Ok ==> y@ > 0 && is_floor(
            w_div_down_spec(x, y)->Ok_0@ as int,
            x@ * one_wad(),
            y@ as int,
        ),
        w_mul_down_spec(x, y) is Ok <==> x@ * y@ < word_modulus(),
{
    broadcast use group_u256;

    division_rounds_down(x, y, u256(1_000_000_000_000_000_000));
    division_rounds_down(x, u256(1_000_000_000_000_000_000), y);
}

/// Compounded interest factor of a rate over a number of seconds: the first three terms of the
/// exponential series, each rounded down.
pub open spec fn compounded_factor(rate: int, seconds: int) -> int {
    let first = rate * seconds;
    let second = (first * first) / 2_000_000_000_000_000_000;
    let third = (second * first) / 3_000_000_000_000_000_000;
    first + second + third
}

/// Compounding gives the first three terms of the exponential series, so at least the simple
/// interest.
pub proof fn compounding_is_the_taylor_sum(rate: U256, seconds: U256)
    requires
        w_taylor_compounded_spec(rate, seconds) is Ok,
    ensures
        w_taylor_compounded_spec(rate, seconds)->Ok_0@ == compounded_factor(
            rate@ as int,
            seconds@ as int,
        ),
        w_taylor_compounded_spec(rate, seconds)->Ok_0@ >= rate@ * seconds@,
{
    broadcast use group_u256;

    let first = (rate@ * seconds@) as int;
    assert(first >= 0 && first * first >= 0) by (nonlinear_arith)
        requires
            first == rate@ * seconds@,
    ;
    lemma_floor(first * first, 2_000_000_000_000_000_000);
    let second = (first * first) / 2_000_000_000_000_000_000;
    assert(second * first >= 0) by (nonlinear_arith)
        requires
            first >= 0,
            second >= 0,
    ;
    lemma_floor(second * first, 3_000_000_000_000_000_000);
}

/// Shares and assets convert at the ratio of the totals with one virtual asset and a million virtual
/// shares, in the stated rounding direction.
pub proof fn conversions_follow_the_share_price(
    amount: U256,
    total_assets: U256,
    total_shares: U256,
)
    ensures
        ({
            let assets = total_assets@ + 1int;
            let shares = total_shares@ + 1_000_000int;
            let shares_down = to_supply_shares_down_spec(amount, total_assets, total_shares);
            let shares_up = to_supply_shares_up_spec(amount, total_assets, total_shares);
            let assets_down = to_supply_assets_down_spec(amount, total_assets, total_shares);
            let assets_up = to_supply_assets_up_spec(amount, total_assets, total_shares);
            &&& shares_down is Ok ==> is_floor(shares_down->Ok_0@ as int, amount@ * shares, assets)
            &&& shares_up is Ok ==> is_ceiling(shares_up->Ok_0@ as int, amount@ * shares, assets)
            &&& assets_down is Ok ==> is_floor(assets_down->Ok_0@ as int, amount@ * assets, shares)
            &&& assets_up is Ok ==> is_ceiling(assets_up->Ok_0@ as int, amount@ * assets, shares)
        }),
{
    broadcast use group_u256;

    if total_assets@ + 1int < word_modulus() && total_shares@ + 1_000_000int < word_modulus() {
        let assets = u256((total_assets@ + 1) as nat);
        let shares = u256((total_shares@ + 1_000_000) as nat);
        division_rounds_down(amount, shares, assets);
        division_rounds_up(amount, shares, assets);
        division_rounds_down(amount, assets, shares);
        division_rounds_up(amount, assets, shares);
    }
}

/// Rates at given totals: utilization is borrowed over supplied assets, and suppliers earn the
/// borrow rate on the utilized part less the fee, each product rounded down.
pub proof fn spot_rates_follow_utilization(
    borrow_assets: U256,
    supply_assets: U256,
    rate_at_target: U256,
    fee: U256,
)
    requires
        spot_rates_spec(borrow_assets, supply_assets, rate_at_target, fee) is Ok,
    ensures
        ({
            let (utilization, borrow_rate, supply_rate) = spot_rates_spec(
                borrow_assets,
                supply_assets,
                rate_at_target,
                fee,
            )->Ok_0;
            let gross = (borrow_rate@ * utilization@) as int / one_wad();
            &&& supply_assets@ == 0 ==> utilization@ == 0
            &&& supply_assets@ > 0 ==> is_floor(
                utilization@ as int,
                borrow_assets@ * one_wad(),
                supply_assets@ as int,
            )
            &&& fee@ <= one_wad()
            &&& is_floor(supply_rate@ as int, gross * (one_wad() - fee@), one_wad())
        }),
{
    broadcast use group_u256;

    let (utilization, borrow_rate, _) = spot_rates_spec(
        borrow_assets,
        supply_assets,
        rate_at_target,
        fee,
    )->Ok_0;
    wad_arithmetic_is_scaled(borrow_assets, supply_assets);
    wad_arithmetic_is_scaled(borrow_rate, utilization);
    lemma_floor((borrow_rate@ * utilization@) as int, one_wad());
    wad_arithmetic_is_scaled(
        u256(((borrow_rate@ * utilization@) as int / one_wad()) as nat),
        u256((one_wad() - fee@) as nat),
    );
}

/// Interest accrues on the borrowed assets alone, at the compounded average rate and rounded down;
/// a market without borrows accrues none. The fee recipient is minted shares for its cut of the
/// interest at the price without that cut.
pub proof fn interest_accrues_on_borrowed_assets(
    stored: StoredMarketState,
    timestamp: u64,
    rate_at_target: U256,
)
    requires
        accrue_market_spec(stored, timestamp, rate_at_target) is Ok,
    ensures
        stored.last_update <= timestamp,
        stored.total_borrow_assets@ <= stored.total_supply_assets@,
        ({
            let accrued = accrue_market_spec(stored, timestamp, rate_at_target)->Ok_0;
            let factor = compounded_factor(
                accrued.market.average_accrual_borrow_rate@ as int,
                timestamp - stored.last_update,
            );
            let interest = accrued.interest_assets@ as int;
            let fee_assets = (interest * stored.fee@) / one_wad();
            &&& is_floor(interest, stored.total_borrow_assets@ * factor, one_wad())
            &&& stored.total_borrow_assets@ == 0 ==> interest == 0
            &&& stored.fee@ == 0 ==> accrued.fee_shares@ == 0
            &&& stored.fee@ > 0 ==> is_floor(
                accrued.fee_shares@ as int,
                fee_assets * (stored.total_supply_shares@ + 1_000_000int),
                stored.total_supply_assets@ + interest - fee_assets + 1,
            )
            &&& accrued.market.market_id == stored.market_id
            &&& accrued.market.timestamp == timestamp
            &&& accrued.market.total_borrow_shares == stored.total_borrow_shares
        }),
{
    broadcast use group_u256;

    let accrued = accrue_market_spec(stored, timestamp, rate_at_target)->Ok_0;
    let rate = accrued.market.average_accrual_borrow_rate;
    let elapsed = u256((timestamp - stored.last_update) as nat);
    compounding_is_the_taylor_sum(rate, elapsed);
    let compounded = w_taylor_compounded_spec(rate, elapsed)->Ok_0;
    wad_arithmetic_is_scaled(stored.total_borrow_assets, compounded);
    assert(stored.total_borrow_assets@ == 0 ==> stored.total_borrow_assets@ * compounded@ == 0)
        by (nonlinear_arith);
    if stored.fee@ > 0 {
        let interest = accrued.interest_assets;
        wad_arithmetic_is_scaled(interest, stored.fee);
        lemma_floor((interest@ * stored.fee@) as int, one_wad());
        let fee_assets = u256(((interest@ * stored.fee@) as int / one_wad()) as nat);
        let remaining = u256(
            (stored.total_supply_assets@ + interest@ - fee_assets@) as nat,
        );
        conversions_follow_the_share_price(fee_assets, remaining, stored.total_supply_shares);
    }
}

/// The rates of an accrued market are those of its new totals.
pub proof fn accrued_rates_belong_to_the_new_totals(
    stored: StoredMarketState,
    timestamp: u64,
    rate_at_target: U256,
)
    requires
        accrue_market_spec(stored, timestamp, rate_at_target) is Ok,
    ensures
        ({
            let market = accrue_market_spec(stored, timestamp, rate_at_target)->Ok_0.market;
            let gross = (market.spot_borrow_rate@ * market.utilization@) as int / one_wad();
            &&& market.total_supply_assets@ == 0 ==> market.utilization@ == 0
            &&& market.total_supply_assets@ > 0 ==> is_floor(
                market.utilization@ as int,
                market.total_borrow_assets@ * one_wad(),
                market.total_supply_assets@ as int,
            )
            &&& is_floor(
                market.spot_supply_rate@ as int,
                gross * (one_wad() - stored.fee@),
                one_wad(),
            )
            &&& market.spot_supply_rate@ <= market.spot_borrow_rate@ || market.utilization@
                > one_wad()
        }),
{
    broadcast use group_u256;

    let market = accrue_market_spec(stored, timestamp, rate_at_target)->Ok_0.market;
    spot_rates_follow_utilization(
        market.total_borrow_assets,
        market.total_supply_assets,
        market.ending_rate_at_target,
        stored.fee,
    );
    let b = market.spot_borrow_rate@ as int;
    let u = market.utilization@ as int;
    assert(b * u >= 0) by (nonlinear_arith)
        requires
            b >= 0,
            u >= 0,
    ;
    lemma_floor(b * u, one_wad());
    let gross = b * u / one_wad();
    let supply = market.spot_supply_rate@ as int;
    let kept = one_wad() - stored.fee@;
    if u <= one_wad() {
        assert(gross <= b) by (nonlinear_arith)
            requires
                gross * one_wad() <= b * u,
                u <= one_wad(),
                b >= 0,
                one_wad() == 1_000_000_000_000_000_000,
        ;
        assert(supply <= gross) by (nonlinear_arith)
            requires
                supply * one_wad() <= gross * kept,
                kept <= one_wad(),
                gross >= 0,
                one_wad() == 1_000_000_000_000_000_000,
        ;
    }
}

/// A direct position is worth its internal shares at the share price of the market, rounded down.
pub proof fn adapter_assets_follow_the_share_price(shares: U256, market: ProjectedMarketState)
    requires
        expected_adapter_assets_spec(shares, market) is Ok,
    ensures
        is_floor(
            expected_adapter_assets_spec(shares, market)->Ok_0@ as int,
            shares@ * (market.total_supply_assets@ + 1int),
            market.total_supply_shares@ + 1_000_000int,
        ),
{
    conversions_follow_the_share_price(
        shares,
        market.total_supply_assets,
        market.total_supply_shares,
    );
}

/// A supply mints shares rounded down, at least one per asset, and leaves the position worth its
/// shares at the new totals. The caps it touches are handed through.
pub proof fn allocation_mints_at_the_share_price(
    market: ProjectedMarketState,
    internal_shares: U256,
    requested: U256,
    recorded: U256,
    fee: U256,
    affected_caps: [CapRef; 3],
)
    requires
        allocate_spec(market, internal_shares, requested, recorded, fee, affected_caps) is Ok,
    ensures
        ({
            let after = allocate_spec(
                market,
                internal_shares,
                requested,
                recorded,
                fee,
                affected_caps,
            )->Ok_0;
            &&& is_floor(
                after.changed_shares@ as int,
                requested@ * (market.total_supply_shares@ + 1_000_000int),
                market.total_supply_assets@ + 1int,
            )
            &&& after.changed_shares@ >= requested@
            &&& is_floor(
                after.expected_assets@ as int,
                after.internal_supply_shares@ * (market.total_supply_assets@ + requested@ + 1int),
                market.total_supply_shares@ + after.changed_shares@ + 1_000_000int,
            )
            &&& after.market.total_supply_assets@ > 0 ==> is_floor(
                after.market.utilization@ as int,
                market.total_borrow_assets@ * one_wad(),
                after.market.total_supply_assets@ as int,
            )
            &&& after.market.ending_rate_at_target == market.ending_rate_at_target
            &&& after.market.market_id == market.market_id
            &&& after.affected_caps == affected_caps
        }),
{
    broadcast use group_u256, group_i256;

    let after = allocate_spec(
        market,
        internal_shares,
        requested,
        recorded,
        fee,
        affected_caps,
    )->Ok_0;
    conversions_follow_the_share_price(
        requested,
        market.total_supply_assets,
        market.total_supply_shares,
    );
    conversions_follow_the_share_price(
        after.internal_supply_shares,
        after.market.total_supply_assets,
        after.market.total_supply_shares,
    );
    spot_rates_follow_utilization(
        market.total_borrow_assets,
        after.market.total_supply_assets,
        market.ending_rate_at_target,
        fee,
    );
}

/// A withdrawal burns owned shares rounded up and leaves the position worth its remaining shares at
/// the new totals. The caps it touches are handed through.
pub proof fn deallocation_burns_at_the_share_price(
    market: ProjectedMarketState,
    internal_shares: U256,
    requested: U256,
    recorded: U256,
    token_balance: U256,
    fee: U256,
    affected_caps: [CapRef; 3],
)
    requires
        deallocate_spec(
            market,
            internal_shares,
            requested,
            recorded,
            token_balance,
            fee,
            affected_caps,
        ) is Ok,
    ensures
        ({
            let after = deallocate_spec(
                market,
                internal_shares,
                requested,
                recorded,
                token_balance,
                fee,
                affected_caps,
            )->Ok_0;
            &&& is_ceiling(
                after.changed_shares@ as int,
                requested@ * (market.total_supply_shares@ + 1_000_000int),
                market.total_supply_assets@ + 1int,
            )
            &&& after.changed_shares@ <= internal_shares@
            &&& is_floor(
                after.expected_assets@ as int,
                after.internal_supply_shares@ * (market.total_supply_assets@ - requested@ + 1int),
                market.total_supply_shares@ - after.changed_shares@ + 1_000_000int,
            )
            &&& after.market.total_supply_assets@ > 0 ==> is_floor(
                after.market.utilization@ as int,
                market.total_borrow_assets@ * one_wad(),
                after.market.total_supply_assets@ as int,
            )
            &&& after.market.ending_rate_at_target == market.ending_rate_at_target
            &&& after.market.market_id == market.market_id
            &&& after.affected_caps == affected_caps
        }),
{
    broadcast use group_u256, group_i256;

    let after = deallocate_spec(
        market,
        internal_shares,
        requested,
        recorded,
        token_balance,
        fee,
        affected_caps,
    )->Ok_0;
    conversions_follow_the_share_price(
        requested,
        market.total_supply_assets,
        market.total_supply_shares,
    );
    conversions_follow_the_share_price(
        after.internal_supply_shares,
        after.market.total_supply_assets,
        after.market.total_supply_shares,
    );
    spot_rates_follow_utilization(
        market.total_borrow_assets,
        after.market.total_supply_assets,
        market.ending_rate_at_target,
        fee,
    );
}

/// Integer sum of the first `count` values.
pub open spec fn plain_sum<K>(entries: Seq<(K, U256)>, count: int) -> int
    decreases count,
{
    if count <= 0 {
        0
    } else {
        plain_sum(entries, count - 1) + entries[count - 1].1@
    }
}

proof fn lemma_values_sum<K>(entries: Seq<(K, U256)>, from: int, total: U256)
    requires
        0 <= from <= entries.len(),
        values_sum_from(entries, from, total) is Ok,
    ensures
        values_sum_from(entries, from, total)->Ok_0@ == total@ + plain_sum(
            entries,
            entries.len() as int,
        ) - plain_sum(entries, from),
    decreases entries.len() - from,
{
    broadcast use group_u256;

    if from < entries.len() {
        let next = u256(total@ + entries[from].1@);
        lemma_values_sum(entries, from + 1, next);
    }
}

/// The parent's total assets are what backs them, idle and in adapters, limited to the stored total
/// grown at the maximum rate; a loss below the stored total is realized in full.
pub proof fn parent_total_is_backing_limited_by_the_rate(
    parent: ParentAccounting,
    adapters: Seq<(AdapterAddress, U256)>,
    timestamp: u64,
)
    requires
        accrue_parent_spec(parent, adapters, timestamp) is Ok,
    ensures
        parent.last_update <= timestamp,
        ({
            let total = accrue_parent_spec(parent, adapters, timestamp)->Ok_0.total_assets@ as int;
            let backing = parent.idle_assets@ + plain_sum(adapters, adapters.len() as int);
            let elapsed = timestamp - parent.last_update;
            let growth = (parent.stored_total_assets@ * elapsed * parent.max_rate@) / one_wad();
            let limit = parent.stored_total_assets@ + growth;
            &&& total <= backing
            &&& total <= limit
            &&& total == backing || total == limit
            &&& backing <= parent.stored_total_assets@ ==> total == backing
        }),
{
    broadcast use group_u256;

    lemma_values_sum(adapters, 0, parent.idle_assets);
    let elapsed = u256((timestamp - parent.last_update) as nat);
    let weighted = u256((parent.stored_total_assets@ * elapsed@) as nat);
    division_rounds_down(weighted, parent.max_rate, u256(1_000_000_000_000_000_000));
    let product = (weighted@ * parent.max_rate@) as int;
    lemma_floor(product, one_wad());
}

/// Fee assets of a parent accrual: the performance cut of the growth over the stored total, and the
/// management cut of the time-weighted total, each only for an allowed recipient.
pub open spec fn parent_fee_assets(parent: ParentAccounting, total: int, elapsed: int) -> (int, int) {
    let interest = if total > parent.stored_total_assets@ {
        total - parent.stored_total_assets@
    } else {
        0
    };
    (
        if parent.performance_fee_recipient_allowed {
            interest * parent.performance_fee@ / one_wad()
        } else {
            0
        },
        if parent.management_fee_recipient_allowed {
            total * elapsed * parent.management_fee@ / one_wad()
        } else {
            0
        },
    )
}

/// Fee recipients are minted shares worth their fee assets at the price net of both fees, rounded
/// down, and nobody else gains shares.
pub proof fn parent_fees_mint_at_the_net_price(
    parent: ParentAccounting,
    adapters: Seq<(AdapterAddress, U256)>,
    timestamp: u64,
)
    requires
        accrue_parent_spec(parent, adapters, timestamp) is Ok,
    ensures
        ({
            let accrued = accrue_parent_spec(parent, adapters, timestamp)->Ok_0;
            let total = accrued.total_assets@ as int;
            let (performance, management) = parent_fee_assets(
                parent,
                total,
                timestamp - parent.last_update,
            );
            let shares = parent.total_supply@ + parent.virtual_shares@;
            let net = total - performance - management + 1;
            &&& performance + management <= total
            &&& is_floor(accrued.performance_fee_shares@ as int, performance * shares, net)
            &&& is_floor(accrued.management_fee_shares@ as int, management * shares, net)
        }),
{
    broadcast use group_u256;

    let accrued = accrue_parent_spec(parent, adapters, timestamp)->Ok_0;
    let total = accrued.total_assets@ as int;
    let elapsed = timestamp - parent.last_update;
    let interest = if total > parent.stored_total_assets@ {
        total - parent.stored_total_assets@
    } else {
        0
    };
    let (performance, management) = parent_fee_assets(parent, total, elapsed);
    assert(interest == 0 ==> interest * parent.performance_fee@ == 0) by (nonlinear_arith);
    assert(parent.performance_fee@ == 0 ==> interest * parent.performance_fee@ == 0)
        by (nonlinear_arith);
    assert(elapsed == 0 ==> total * elapsed == 0) by (nonlinear_arith);
    assert(total * elapsed == 0 ==> total * elapsed * parent.management_fee@ == 0)
        by (nonlinear_arith);
    assert(parent.management_fee@ == 0 ==> total * elapsed * parent.management_fee@ == 0)
        by (nonlinear_arith);
    assert(interest * parent.performance_fee@ >= 0) by (nonlinear_arith)
        requires
            interest >= 0,
    ;
    assert(total * elapsed >= 0) by (nonlinear_arith)
        requires
            total >= 0,
            elapsed >= 0,
    ;
    assert(total * elapsed * parent.management_fee@ >= 0) by (nonlinear_arith)
        requires
            total * elapsed >= 0,
    ;
    lemma_floor(interest * parent.performance_fee@, one_wad());
    lemma_floor(total * elapsed * parent.management_fee@, one_wad());
    let p = u256(performance as nat);
    let m = u256(management as nat);
    assert(p@ == performance && m@ == management);
    let net = u256((total - performance - management + 1) as nat);
    let shares = u256((parent.total_supply@ + parent.virtual_shares@) as nat);
    division_rounds_down(p, shares, net);
    division_rounds_down(m, shares, net);
}

/// Conversions of the wrapped vault follow its share price with one virtual asset and `10^offset`
/// virtual shares: deposits mint rounded down, withdrawals burn rounded up, and redemptions pay
/// rounded down.
pub proof fn wrapped_vault_conversions_follow_its_share_price(
    amount: U256,
    total_assets: U256,
    total_supply: U256,
    offset: u8,
)
    ensures
        ({
            let assets = total_assets@ + 1int;
            let supply = total_supply@ + pow(10, offset as nat);
            let deposit = preview_deposit_spec(amount, total_assets, total_supply, offset);
            let withdraw = preview_withdraw_spec(amount, total_assets, total_supply, offset);
            let redeem = preview_redeem_spec(amount, total_assets, total_supply, offset);
            &&& deposit is Ok ==> is_floor(deposit->Ok_0@ as int, amount@ * supply, assets)
            &&& withdraw is Ok ==> is_ceiling(withdraw->Ok_0@ as int, amount@ * supply, assets)
            &&& redeem is Ok ==> is_floor(redeem->Ok_0@ as int, amount@ * assets, supply)
        }),
{
    broadcast use group_u256;

    vstd::arithmetic::power::lemma_pow_positive(10, offset as nat);
    let virtual_shares = pow(10, offset as nat);
    if virtual_shares < word_modulus() && total_assets@ + 1int < word_modulus() && total_supply@
        + virtual_shares < word_modulus() {
        let assets = u256((total_assets@ + 1) as nat);
        let supply = u256((total_supply@ + virtual_shares) as nat);
        division_rounds_down(amount, supply, assets);
        division_rounds_up(amount, supply, assets);
        division_rounds_down(amount, assets, supply);
    }
}

/// A deposit through the liquidity adapter raises the wrapped vault and the idle market by exactly
/// the assets, mints shares at both share prices rounded down, and values the adapter by redeeming
/// its shares.
pub proof fn liquidity_deposit_is_exact(state: VaultV1LiquidityAdapterState, assets: U256)
    requires
        v1_allocate_spec(state, assets) is Ok,
    ensures
        0 < assets@ <= state.max_deposit@,
        ({
            let after = v1_allocate_spec(state, assets)->Ok_0;
            let minted = after.share_balance@ - state.share_balance@;
            let changed = after.changed_morpho_shares@ as int;
            let price = state.vault_total_supply@ + pow(10, state.decimals_offset as nat);
            &&& after.vault_total_assets@ == state.vault_total_assets@ + assets@
            &&& after.vault_total_supply@ == state.vault_total_supply@ + minted
            &&& minted > 0
            &&& is_floor(minted, assets@ * price, state.vault_total_assets@ + 1int)
            &&& after.idle_market_total_supply_assets@ == state.idle_market_total_supply_assets@
                + assets@
            &&& after.idle_market_total_supply_shares@ == state.idle_market_total_supply_shares@
                + changed
            &&& after.idle_market_supply_shares@ == state.idle_market_supply_shares@ + changed
            &&& is_floor(
                changed,
                assets@ * (state.idle_market_total_supply_shares@ + 1_000_000int),
                state.idle_market_total_supply_assets@ + 1int,
            )
            &&& is_floor(
                after.real_assets@ as int,
                after.share_balance@ * (after.vault_total_assets@ + 1int),
                after.vault_total_supply@ + pow(10, state.decimals_offset as nat),
            )
            &&& after.allocation_change@ == after.real_assets@ - state.recorded_allocation@
        }),
{
    broadcast use group_u256, group_i256;

    let after = v1_allocate_spec(state, assets)->Ok_0;
    wrapped_vault_conversions_follow_its_share_price(
        assets,
        state.vault_total_assets,
        state.vault_total_supply,
        state.decimals_offset,
    );
    wrapped_vault_conversions_follow_its_share_price(
        after.share_balance,
        after.vault_total_assets,
        after.vault_total_supply,
        state.decimals_offset,
    );
    conversions_follow_the_share_price(
        assets,
        state.idle_market_total_supply_assets,
        state.idle_market_total_supply_shares,
    );
}

/// A withdrawal through the liquidity adapter lowers the wrapped vault and the idle market by exactly
/// the assets, burns owned shares at both share prices rounded up, and values the adapter by
/// redeeming its remaining shares.
pub proof fn liquidity_withdrawal_is_exact(state: VaultV1LiquidityAdapterState, assets: U256)
    requires
        v1_deallocate_spec(state, assets) is Ok,
    ensures
        0 < assets@ <= state.max_withdraw@,
        ({
            let after = v1_deallocate_spec(state, assets)->Ok_0;
            let burned = state.share_balance@ - after.share_balance@;
            let changed = after.changed_morpho_shares@ as int;
            let price = state.vault_total_supply@ + pow(10, state.decimals_offset as nat);
            &&& after.vault_total_assets@ == state.vault_total_assets@ - assets@
            &&& after.vault_total_supply@ == state.vault_total_supply@ - burned
            &&& is_ceiling(burned, assets@ * price, state.vault_total_assets@ + 1int)
            &&& after.idle_market_total_supply_assets@ == state.idle_market_total_supply_assets@
                - assets@
            &&& after.idle_market_total_supply_shares@ == state.idle_market_total_supply_shares@
                - changed
            &&& after.idle_market_supply_shares@ == state.idle_market_supply_shares@ - changed
            &&& is_ceiling(
                changed,
                assets@ * (state.idle_market_total_supply_shares@ + 1_000_000int),
                state.idle_market_total_supply_assets@ + 1int,
            )
            &&& is_floor(
                after.real_assets@ as int,
                after.share_balance@ * (after.vault_total_assets@ + 1int),
                after.vault_total_supply@ + pow(10, state.decimals_offset as nat),
            )
            &&& after.allocation_change@ == after.real_assets@ - state.recorded_allocation@
        }),
{
    broadcast use group_u256, group_i256;

    let after = v1_deallocate_spec(state, assets)->Ok_0;
    wrapped_vault_conversions_follow_its_share_price(
        assets,
        state.vault_total_assets,
        state.vault_total_supply,
        state.decimals_offset,
    );
    wrapped_vault_conversions_follow_its_share_price(
        after.share_balance,
        after.vault_total_assets,
        after.vault_total_supply,
        state.decimals_offset,
    );
    conversions_follow_the_share_price(
        assets,
        state.idle_market_total_supply_assets,
        state.idle_market_total_supply_shares,
    );
}

/// A cap admits an allocation exactly where a nonzero absolute limit covers it and its share of the
/// total assets stays within the relative limit; a relative limit of one WAD is no limit.
pub proof fn caps_bound_allocations(cap: CapState, total_assets: U256, allocation: U256)
    requires
        total_assets@ * cap.relative_cap@ < word_modulus(),
    ensures
        cap_admits(cap, total_assets, allocation) <==> {
            &&& 0 < cap.absolute_cap@
            &&& allocation@ <= cap.absolute_cap@
            &&& cap.relative_cap@ <= one_wad()
            &&& cap.relative_cap@ == one_wad() || allocation@ * one_wad() <= total_assets@
                * cap.relative_cap@
        },
{
    broadcast use group_u256;

    wad_arithmetic_is_scaled(total_assets, cap.relative_cap);
    let p = (total_assets@ * cap.relative_cap@) as int;
    let q = w_mul_down_spec(total_assets, cap.relative_cap)->Ok_0@ as int;
    let a = allocation@ as int;
    assert(a <= q <==> a * one_wad() <= p) by (nonlinear_arith)
        requires
            q * one_wad() <= p < (q + 1) * one_wad(),
            one_wad() == 1_000_000_000_000_000_000,
    ;
}

/// A reward policy counts as zero contribution only on identified evidence: evidence of no material
/// rewards that is valid through the horizon, or a curator mandate.
pub proof fn reward_contribution_needs_evidence(policy: RewardPolicy, required_through: u64)
    ensures
        reward_contribution_spec(policy, required_through) is Ok <==> match policy {
            RewardPolicy::NoMaterialRewards { valid_until_timestamp, evidence_hash, .. } =>
                evidence_hash@ > 0 && required_through <= valid_until_timestamp,
            RewardPolicy::IgnoreRewardsByCuratorMandate { policy_revision } => policy_revision@ > 0,
            _ => false,
        },
{
}

} // verus!
