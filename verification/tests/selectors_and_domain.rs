use alloy::primitives::keccak256;
use alloy::sol_types::SolValue;

use morpho_v2_reallocator::contracts::code_identity::{verify_runtime_code, CodeIdentityError};
use morpho_v2_reallocator::contracts::selectors::{
    is_routine_write, ADAPTER_BURN_SHARES, ALLOCATE, DEALLOCATE, MULTICALL,
};
use morpho_v2_reallocator::domain::{
    derive_liquidity_position_key, derive_market_id, derive_position_key, encode_adapter_data,
    AdapterAddress, ArithmeticError, Assets, MarketParams, Shares,
};
use morpho_v2_reallocator::primitives::{word_from_bytes, Address, B256, I256, U256};
use morpho_v2_reallocator::protocol_lock::{IdentityKind, ValidatedContractIdentity};
use morpho_v2_reallocator::{build_info, is_git_revision};

fn expected(signature: &str) -> [u8; 4] {
    let hash = keccak256(signature.as_bytes());
    [hash[0], hash[1], hash[2], hash[3]]
}

fn params() -> MarketParams {
    MarketParams {
        loan_token: Address::with_last_byte(1),
        collateral_token: Address::with_last_byte(2),
        oracle: Address::with_last_byte(3),
        irm: Address::with_last_byte(4),
        lltv: U256::from_u64(860_000_000_000_000_000),
    }
}

fn encoded_params() -> Vec<u8> {
    (
        alloy::primitives::Address::with_last_byte(1),
        alloy::primitives::Address::with_last_byte(2),
        alloy::primitives::Address::with_last_byte(3),
        alloy::primitives::Address::with_last_byte(4),
        alloy::primitives::U256::from(860_000_000_000_000_000_u64),
    )
        .abi_encode()
}

#[test]
fn routine_selectors_match_solidity_signatures() {
    assert_eq!(ALLOCATE, expected("allocate(address,bytes,uint256)"));
    assert_eq!(DEALLOCATE, expected("deallocate(address,bytes,uint256)"));
    assert_eq!(MULTICALL, expected("multicall(bytes[])"));
    assert_eq!(ADAPTER_BURN_SHARES, expected("burnShares(bytes32)"));
}

#[test]
fn allowlist_is_exact() {
    assert!(is_routine_write(ALLOCATE));
    assert!(is_routine_write(DEALLOCATE));
    assert!(is_routine_write(MULTICALL));
    assert!(!is_routine_write([0_u8; 4]));
}

#[test]
fn asset_arithmetic_is_checked() {
    assert_eq!(
        Assets(U256::max_value()).checked_add(Assets(U256::from_u64(1))),
        Err(ArithmeticError::Overflow)
    );
    assert_eq!(
        Assets::zero().checked_sub(Assets(U256::from_u64(1))),
        Err(ArithmeticError::Underflow)
    );
}

#[test]
fn market_id_uses_solidity_struct_encoding() {
    assert_eq!(
        derive_market_id(&params()).0.to_bytes(),
        keccak256(encoded_params()).to_vec()
    );
}

#[test]
fn adapter_data_is_the_struct_encoding() {
    assert_eq!(encode_adapter_data(&params()), encoded_params());
}

#[test]
fn position_keys_depend_on_the_adapter() {
    let first = AdapterAddress(Address::with_last_byte(1));
    let second = AdapterAddress(Address::with_last_byte(2));
    assert_ne!(derive_position_key(first, &params()), derive_position_key(second, &params()));
    assert_ne!(derive_liquidity_position_key(first), derive_liquidity_position_key(second));
}

#[test]
fn addition_and_subtraction_undo_each_other() {
    let a = Assets(U256::from_limbs([u64::MAX, 7, 0, 0]));
    let b = Assets(U256::from_u64(9));
    assert_eq!(a.checked_add(b).unwrap().checked_sub(b), Ok(a));
    let s = Shares(U256::from_u64(3));
    assert_eq!(
        s.checked_add(Shares(U256::from_u64(4))),
        Ok(Shares(U256::from_u64(7)))
    );
    assert_eq!(
        s.checked_sub(Shares(U256::from_u64(4))),
        Err(ArithmeticError::Underflow)
    );
}

#[test]
fn words_are_big_endian() {
    let word = U256::from_limbs([0x0807_0605_0403_0201, 0, 0, 0x2000_0000_0000_0000]);
    let hash = B256::from_word(word);
    let bytes = hash.to_bytes();
    assert_eq!(bytes.len(), 32);
    assert_eq!(bytes[0], 0x20);
    assert_eq!(bytes[31], 0x01);
    assert_eq!(bytes[24], 0x08);
    assert_eq!(word_from_bytes(&bytes), Some(word));
    assert_eq!(word_from_bytes(&bytes[1..].to_vec()), None);
}

#[test]
fn words_compare_by_value() {
    let high = U256::from_limbs([0, 0, 0, 1]);
    let low = U256::from_limbs([u64::MAX, u64::MAX, u64::MAX, 0]);
    assert!(low.lt(high));
    assert!(!high.lt(low));
    assert_eq!(low.min(high), low);
    assert_eq!(low.max(high), high);
    assert_eq!(low.saturating_sub(high), U256::zero());
    assert_eq!(high.to_u64(), None);
    assert_eq!(U256::from_u128(1 << 64), U256::from_limbs([0, 1, 0, 0]));
}

#[test]
fn signed_words_use_two_complement() {
    assert_eq!(I256::try_from_unsigned(U256::max_value()), None);
    let five = I256::from_u64(5);
    assert_eq!(five.to_unsigned(), Some(U256::from_u64(5)));
    assert!(!five.is_negative());
    assert_eq!(five.to_bits(), U256::from_u64(5));
    assert!(I256::zero().lt(five));
}

#[test]
fn addresses_fit_twenty_bytes() {
    let wide = U256::from_limbs([0, 0, 1 << 32, 0]);
    assert_eq!(Address::from_word(wide), None);
    let address = Address::from_word(U256::from_limbs([1, 2, 3, 0])).unwrap();
    assert_eq!(address.to_bytes().len(), 20);
    assert_eq!(address.to_word(), U256::from_limbs([1, 2, 3, 0]));
    assert_eq!(Address::with_last_byte(7).to_bytes()[19], 7);
}

#[test]
fn runtime_code_is_compared_by_digest() {
    let code = vec![0x60_u8, 0x80, 0x60, 0x40];
    let digest = keccak256(&code).to_vec();
    let mut identity = ValidatedContractIdentity {
        kind: IdentityKind::VaultV2,
        address: Address::with_last_byte(8),
        runtime_code_hash: B256::from_word(word_from_bytes(&digest).unwrap()),
    };
    assert_eq!(verify_runtime_code(&identity, &code), Ok(()));
    let address = Address::with_last_byte(8);
    assert_eq!(
        verify_runtime_code(&identity, &Vec::new()),
        Err(CodeIdentityError::EmptyCode { address })
    );
    let observed = identity.runtime_code_hash;
    let expected = B256::with_last_byte(1);
    identity.runtime_code_hash = expected;
    assert_eq!(
        verify_runtime_code(&identity, &code),
        Err(CodeIdentityError::HashMismatch { address, expected, observed })
    );
}

#[test]
fn build_identity_falls_back_to_unknown() {
    assert_eq!(build_info(None).revision, "unknown");
    assert_eq!(build_info(Some("abc")).revision, "abc");
    assert_eq!(build_info(None).version, "0.1.0");
    assert!(is_git_revision("0123456789abcdefABCDEF000000000000000000"));
    assert!(!is_git_revision("0123456789abcdefABCDEF00000000000000000g"));
    assert!(!is_git_revision("0123"));
}
