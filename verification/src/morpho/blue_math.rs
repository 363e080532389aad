//! Exact Morpho Blue shares and accrual arithmetic.

use vstd::prelude::*;

use crate::domain::ArithmeticError;
use crate::primitives::{difference, group_u256, product, sum, u256, word_modulus, U256};

verus! {

/// Morpho fixed-point scalar.
pub const WAD: u64 = 1_000_000_000_000_000_000;

/// `SharesMathLib.VIRTUAL_SHARES`.
pub const VIRTUAL_SHARES: u64 = 1_000_000;

/// `SharesMathLib.VIRTUAL_ASSETS`.
pub const VIRTUAL_ASSETS: u64 = 1;

/// The fixed-point scalar as a word.
pub fn wad() -> (r: U256)
    ensures
        r == u256(WAD as nat),
{
    U256::from_u64(WAD)
}

/// Exact sum, or an overflow.
pub open spec fn plus_spec(a: U256, b: U256) -> Result<U256, ArithmeticError> {
    sum(a, b).ok_or(ArithmeticError::Overflow)
}

/// Adds exactly, reporting an overflow.
pub fn plus(a: U256, b: U256) -> (r: Result<U256, ArithmeticError>)
    ensures
        r == plus_spec(a, b),
{
    a.checked_add(b).ok_or(ArithmeticError::Overflow)
}

/// Exact difference, or an underflow.
pub open spec fn minus_spec(a: U256, b: U256) -> Result<U256, ArithmeticError> {
    difference(a, b).ok_or(ArithmeticError::Underflow)
}

/// Subtracts exactly, reporting an underflow.
pub fn minus(a: U256, b: U256) -> (r: Result<U256, ArithmeticError>)
    ensures
        r == minus_spec(a, b),
{
    a.checked_sub(b).ok_or(ArithmeticError::Underflow)
}

/// Exact product, or an overflow.
pub open spec fn times_spec(a: U256, b: U256) -> Result<U256, ArithmeticError> {
    product(a, b).ok_or(ArithmeticError::Overflow)
}

/// Multiplies exactly, reporting an overflow.
pub fn times(a: U256, b: U256) -> (r: Result<U256, ArithmeticError>)
    ensures
        r == times_spec(a, b),
{
    a.checked_mul(b).ok_or(ArithmeticError::Overflow)
}

/// `floor(x * y / denominator)`, when the denominator is nonzero and the product fits a word.
pub open spec fn mul_div_down_spec(x: U256, y: U256, denominator: U256) -> Result<
    U256,
    ArithmeticError,
> {
    if denominator@ == 0 {
        Err(ArithmeticError::DivisionByZero)
    } else if x@ * y@ >= word_modulus() {
        Err(ArithmeticError::Overflow)
    } else {
        Ok(u256((x@ * y@) / denominator@))
    }
}

/// Returns unit-preserving `x * y / denominator`, rounded down like `MathLib.mulDivDown`; zero
/// division and Solidity-width overflow return errors.
pub fn mul_div_down(x: U256, y: U256, denominator: U256) -> (r: Result<U256, ArithmeticError>)
    ensures
        r == mul_div_down_spec(x, y, denominator),
{
    broadcast use group_u256;

    if denominator.is_zero() {
        return Err(ArithmeticError::DivisionByZero);
    }
    let product = times(x, y)?;
    product.checked_div(denominator).ok_or(ArithmeticError::DivisionByZero)
}

/// `ceil(x * y / denominator)`, when the denominator is nonzero and `x * y + denominator - 1`
/// fits a word.
pub open spec fn mul_div_up_spec(x: U256, y: U256, denominator: U256) -> Result<
    U256,
    ArithmeticError,
> {
    if denominator@ == 0 {
        Err(ArithmeticError::DivisionByZero)
    } else if x@ * y@ + denominator@ - 1 >= word_modulus() {
        Err(ArithmeticError::Overflow)
    } else {
        Ok(u256(((x@ * y@ + denominator@ - 1) as nat) / denominator@))
    }
}

/// Returns unit-preserving `ceil(x * y / denominator)` like `MathLib.mulDivUp`; zero division
/// and either checked addition/multiplication overflow error.
pub fn mul_div_up(x: U256, y: U256, denominator: U256) -> (r: Result<U256, ArithmeticError>)
    ensures
        r == mul_div_up_spec(x, y, denominator),
{
    broadcast use group_u256;

    if denominator.is_zero() {
        return Err(ArithmeticError::DivisionByZero);
    }
    let product = times(x, y)?;
    let adjustment = minus(denominator, U256::one())?;
    let numerator = plus(product, adjustment)?;
    numerator.checked_div(denominator).ok_or(ArithmeticError::DivisionByZero)
}

/// Rounding up exceeds rounding down by at most one unit, and only when the division is inexact.
pub proof fn rounding_directions_differ_by_at_most_one(x: U256, y: U256, denominator: U256)
    requires
        mul_div_up_spec(x, y, denominator) is Ok,
    ensures
        mul_div_down_spec(x, y, denominator) is Ok,
        ({
            let down = mul_div_down_spec(x, y, denominator)->Ok_0@;
            let up = mul_div_up_spec(x, y, denominator)->Ok_0@;
            &&& down * denominator@ <= x@ * y@
            &&& x@ * y@ <= up * denominator@
            &&& up == down + (if (x@ * y@) % denominator@ == 0 { 0nat } else { 1nat })
        }),
{
    broadcast use group_u256;

    let p = (x@ * y@) as int;
    let d = denominator@ as int;
    vstd::arithmetic::div_mod::lemma_fundamental_div_mod(p, d);
    vstd::arithmetic::div_mod::lemma_fundamental_div_mod(p + d - 1, d);
    let q = p / d;
    let rem = p % d;
    assert(p / d <= p && (p + d - 1) / d <= p + d - 1) by (nonlinear_arith)
        requires
            p >= 0,
            d >= 1,
    ;
    if rem == 0 {
        vstd::arithmetic::div_mod::lemma_fundamental_div_mod_converse(p + d - 1, d, q, d - 1);
    } else {
        assert(p + d - 1 == (q + 1) * d + (rem - 1)) by (nonlinear_arith)
            requires
                p == d * q + rem,
        ;
        vstd::arithmetic::div_mod::lemma_fundamental_div_mod_converse(p + d - 1, d, q + 1, rem - 1);
    }
    let up = (p + d - 1) / d;
    assert(q * d <= p && p <= up * d) by (nonlinear_arith)
        requires
            p == d * q + rem,
            0 <= rem < d,
            up == q + (if rem == 0 { 0int } else { 1int }),
    ;
}

/// `floor(x * y / WAD)`.
pub open spec fn w_mul_down_spec(x: U256, y: U256) -> Result<U256, ArithmeticError> {
    mul_div_down_spec(x, y, u256(WAD as nat))
}

/// Multiplies two WAD values to WAD, rounded down like `MathLib.wMulDown`.
pub fn w_mul_down(x: U256, y: U256) -> (r: Result<U256, ArithmeticError>)
    ensures
        r == w_mul_down_spec(x, y),
{
    mul_div_down(x, y, wad())
}

/// `floor(x * WAD / y)`.
pub open spec fn w_div_down_spec(x: U256, y: U256) -> Result<U256, ArithmeticError> {
    mul_div_down_spec(x, u256(WAD as nat), y)
}

/// Divides two WAD values to WAD, rounded down like `MathLib.wDivDown`.
pub fn w_div_down(x: U256, y: U256) -> (r: Result<U256, ArithmeticError>)
    ensures
        r == w_div_down_spec(x, y),
{
    mul_div_down(x, wad(), y)
}

/// Divides two WAD values to WAD, rounded up like `MathLib.wDivUp`.
pub fn w_div_up(x: U256, y: U256) -> (r: Result<U256, ArithmeticError>)
    ensures
        r == mul_div_up_spec(x, u256(WAD as nat), y),
{
    mul_div_up(x, wad(), y)
}

/// The three-term compounding `f + f^2 / (2 WAD) + f^3 / (6 WAD^2)` with `f = x * n`, each
/// division rounded down, when every intermediate fits a word.
pub open spec fn w_taylor_compounded_spec(x: U256, n: U256) -> Result<U256, ArithmeticError> {
    match times_spec(x, n) {
        Err(error) => Err(error),
        Ok(first) => match mul_div_down_spec(first, first, u256((2 * WAD) as nat)) {
            Err(error) => Err(error),
            Ok(second) => match mul_div_down_spec(second, first, u256((3 * WAD) as nat)) {
                Err(error) => Err(error),
                Ok(third) => if first@ + second@ + third@ < word_modulus() {
                    Ok(u256(first@ + second@ + third@))
                } else {
                    Err(ArithmeticError::Overflow)
                },
            },
        },
    }
}

/// Returns a WAD compounded factor from WAD rate and seconds, using `MathLib.wTaylorCompounded`;
/// every Solidity-width intermediate is checked.
pub fn w_taylor_compounded(x: U256, n: U256) -> (r: Result<U256, ArithmeticError>)
    ensures
        r == w_taylor_compounded_spec(x, n),
{
    broadcast use group_u256;

    let first = times(x, n)?;
    let second = mul_div_down(first, first, U256::from_u64(2 * WAD))?;
    let third = mul_div_down(second, first, U256::from_u64(3 * WAD))?;
    plus(plus(first, second)?, third)
}

/// Share conversion `floor(assets * (total_shares + VIRTUAL_SHARES) / (total_assets +
/// VIRTUAL_ASSETS))`.
pub open spec fn to_supply_shares_down_spec(
    assets: U256,
    total_assets: U256,
    total_shares: U256,
) -> Result<U256, ArithmeticError> {
    match virtual_totals(total_assets, total_shares) {
        Err(error) => Err(error),
        Ok((all_assets, all_shares)) => mul_div_down_spec(assets, all_shares, all_assets),
    }
}

/// The same conversion rounded up.
pub open spec fn to_supply_shares_up_spec(
    assets: U256,
    total_assets: U256,
    total_shares: U256,
) -> Result<U256, ArithmeticError> {
    match virtual_totals(total_assets, total_shares) {
        Err(error) => Err(error),
        Ok((all_assets, all_shares)) => mul_div_up_spec(assets, all_shares, all_assets),
    }
}

/// Asset conversion `floor(shares * (total_assets + VIRTUAL_ASSETS) / (total_shares +
/// VIRTUAL_SHARES))`.
pub open spec fn to_supply_assets_down_spec(
    shares: U256,
    total_assets: U256,
    total_shares: U256,
) -> Result<U256, ArithmeticError> {
    match virtual_totals(total_assets, total_shares) {
        Err(error) => Err(error),
        Ok((all_assets, all_shares)) => mul_div_down_spec(shares, all_assets, all_shares),
    }
}

/// The same conversion rounded up.
pub open spec fn to_supply_assets_up_spec(
    shares: U256,
    total_assets: U256,
    total_shares: U256,
) -> Result<U256, ArithmeticError> {
    match virtual_totals(total_assets, total_shares) {
        Err(error) => Err(error),
        Ok((all_assets, all_shares)) => mul_div_up_spec(shares, all_assets, all_shares),
    }
}

/// Totals with the virtual balances added, when both fit a word.
pub open spec fn virtual_totals(total_assets: U256, total_shares: U256) -> Result<
    (U256, U256),
    ArithmeticError,
> {
    if total_assets@ + VIRTUAL_ASSETS < word_modulus() && total_shares@ + VIRTUAL_SHARES
        < word_modulus() {
        Ok(
            (
                u256((total_assets@ + VIRTUAL_ASSETS) as nat),
                u256((total_shares@ + VIRTUAL_SHARES) as nat),
            ),
        )
    } else {
        Err(ArithmeticError::Overflow)
    }
}

fn with_virtuals(total_assets: U256, total_shares: U256) -> (r: Result<
    (U256, U256),
    ArithmeticError,
>)
    ensures
        r == virtual_totals(total_assets, total_shares),
{
    broadcast use group_u256;

    let all_assets = plus(total_assets, U256::from_u64(VIRTUAL_ASSETS))?;
    let all_shares = plus(total_shares, U256::from_u64(VIRTUAL_SHARES))?;
    Ok((all_assets, all_shares))
}

/// Converts asset units to share units, rounded down exactly as `SharesMathLib.toSharesDown`;
/// checked intermediates fail on overflow.
pub fn to_supply_shares_down(assets: U256, total_assets: U256, total_shares: U256) -> (r: Result<
    U256,
    ArithmeticError,
>)
    ensures
        r == to_supply_shares_down_spec(assets, total_assets, total_shares),
{
    let (all_assets, all_shares) = with_virtuals(total_assets, total_shares)?;
    mul_div_down(assets, all_shares, all_assets)
}

/// Converts asset units to share units, rounded up exactly as `SharesMathLib.toSharesUp`;
/// checked intermediates fail on overflow.
pub fn to_supply_shares_up(assets: U256, total_assets: U256, total_shares: U256) -> (r: Result<
    U256,
    ArithmeticError,
>)
    ensures
        r == to_supply_shares_up_spec(assets, total_assets, total_shares),
{
    let (all_assets, all_shares) = with_virtuals(total_assets, total_shares)?;
    mul_div_up(assets, all_shares, all_assets)
}

/// Converts share units to asset units, rounded down exactly as `SharesMathLib.toAssetsDown`;
/// checked intermediates fail on overflow.
pub fn to_supply_assets_down(shares: U256, total_assets: U256, total_shares: U256) -> (r: Result<
    U256,
    ArithmeticError,
>)
    ensures
        r == to_supply_assets_down_spec(shares, total_assets, total_shares),
{
    let (all_assets, all_shares) = with_virtuals(total_assets, total_shares)?;
    mul_div_down(shares, all_assets, all_shares)
}

/// Converts share units to asset units, rounded up exactly as `SharesMathLib.toAssetsUp`;
/// checked intermediates fail on overflow.
pub fn to_supply_assets_up(shares: U256, total_assets: U256, total_shares: U256) -> (r: Result<
    U256,
    ArithmeticError,
>)
    ensures
        r == to_supply_assets_up_spec(shares, total_assets, total_shares),
{
    let (all_assets, all_shares) = with_virtuals(total_assets, total_shares)?;
    mul_div_up(shares, all_assets, all_shares)
}

/// Assets supplied and valued again at the same totals never gain: the round trip through shares
/// rounded down returns at most what went in.
pub proof fn supply_round_trip_creates_no_assets(
    assets: U256,
    total_assets: U256,
    total_shares: U256,
)
    requires
        to_supply_shares_down_spec(assets, total_assets, total_shares) is Ok,
        to_supply_assets_down_spec(
            to_supply_shares_down_spec(assets, total_assets, total_shares)->Ok_0,
            total_assets,
            total_shares,
        ) is Ok,
    ensures
        to_supply_assets_down_spec(
            to_supply_shares_down_spec(assets, total_assets, total_shares)->Ok_0,
            total_assets,
            total_shares,
        )->Ok_0@ <= assets@,
{
    broadcast use group_u256;

    let a = (total_assets@ + VIRTUAL_ASSETS) as int;
    let s = (total_shares@ + VIRTUAL_SHARES) as int;
    let x = assets@ as int;
    let minted = (x * s) / a;
    assert(minted <= x * s) by (nonlinear_arith)
        requires
            minted == (x * s) / a,
            a >= 1,
            x >= 0,
            s >= 0,
    ;
    vstd::arithmetic::div_mod::lemma_fundamental_div_mod(x * s, a);
    let back = (minted * a) / s;
    vstd::arithmetic::div_mod::lemma_fundamental_div_mod(minted * a, s);
    assert(back <= x) by (nonlinear_arith)
        requires
            x * s == a * minted + (x * s) % a,
            0 <= (x * s) % a,
            minted * a == s * back + (minted * a) % s,
            0 <= (minted * a) % s,
            s > 0,
    ;
    assert(back <= minted * a) by (nonlinear_arith)
        requires
            back == (minted * a) / s,
            s >= 1,
            minted * a >= 0,
    ;
}

/// Burning shares rounded up for a withdrawal covers it: the burned shares are worth at least the
/// assets that leave.
pub proof fn withdrawal_burn_covers_assets(assets: U256, total_assets: U256, total_shares: U256)
    requires
        to_supply_shares_up_spec(assets, total_assets, total_shares) is Ok,
    ensures
        ({
            let burned = to_supply_shares_up_spec(assets, total_assets, total_shares)->Ok_0@;
            burned * (total_assets@ + VIRTUAL_ASSETS) >= assets@ * (total_shares@ + VIRTUAL_SHARES)
        }),
{
    broadcast use group_u256;

    let (all_assets, all_shares) = virtual_totals(total_assets, total_shares)->Ok_0;
    rounding_directions_differ_by_at_most_one(assets, all_shares, all_assets);
}

} // verus!
