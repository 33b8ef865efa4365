//! Unit exercises of the arithmetic and the keyed stores.

use kong_backend::bignat::{
    nat_add, nat_divide, nat_from_u64, nat_is_zero, nat_sqrt, nat_subtract,
    nat_to_decimal_precision, nat_to_u128, BigNat,
};
use kong_backend::claim::{ClaimLedger, ClaimStatus, StableClaim};
use kong_backend::error::AmmError;
use kong_backend::lp_token_ledger::{LpTokenLedger, StableLPTokenLedger};
use kong_backend::user::UserRegistry;

fn n(x: u64) -> BigNat {
    nat_from_u64(x)
}

fn v(x: &BigNat) -> u128 {
    nat_to_u128(x).unwrap()
}

#[test]
fn rescaling_multiplies_up_and_truncates_down() {
    assert_eq!(v(&nat_to_decimal_precision(&n(123_456), 6, 8)), 12_345_600);
    assert_eq!(v(&nat_to_decimal_precision(&n(123_456), 6, 6)), 123_456);
    assert_eq!(v(&nat_to_decimal_precision(&n(123_456), 6, 4)), 1_234);
    assert_eq!(v(&nat_to_decimal_precision(&n(99), 2, 0)), 0);
}

#[test]
fn arithmetic_matches_integer_semantics() {
    assert_eq!(v(&nat_add(&n(2), &n(3))), 5);
    assert_eq!(v(&nat_subtract(&n(5), &n(3)).unwrap()), 2);
    assert!(nat_subtract(&n(3), &n(5)).is_none());
    assert_eq!(v(&nat_divide(&n(7), &n(2)).unwrap()), 3);
    assert!(nat_divide(&n(7), &n(0)).is_none());
    assert_eq!(v(&nat_sqrt(&n(10))), 3);
    assert_eq!(v(&nat_sqrt(&n(9))), 3);
    assert_eq!(v(&nat_sqrt(&n(0))), 0);
    assert!(nat_is_zero(&n(0)));
    assert!(!nat_is_zero(&n(1)));
}

#[test]
fn lp_transfer_moves_balance_and_conserves_supply() {
    let mut ledger = LpTokenLedger::new();
    ledger.insert(StableLPTokenLedger::new(1, 9, n(1_000), 5));
    assert_eq!(v(&ledger.get_total_supply(9)), 1_000);

    let moved = ledger.transfer(9, 1, 2, &n(400), 6).ok().unwrap();
    assert_eq!(v(&moved.amount), 600);
    assert_eq!(v(&ledger.get_total_supply(9)), 1_000);
    let to_row = ledger.get_by_token_id_by_user_id(9, 2).unwrap();
    assert_eq!(v(&to_row.amount), 400);

    let err = ledger.transfer(9, 1, 2, &n(601), 7).err().unwrap();
    assert!(matches!(err, AmmError::InsufficientLpBalance));
    assert_eq!(v(&ledger.get_total_supply(9)), 1_000);
}

#[test]
fn lp_remove_drops_only_the_named_token() {
    let mut ledger = LpTokenLedger::new();
    ledger.insert(StableLPTokenLedger::new(1, 9, n(1_000), 5));
    ledger.insert(StableLPTokenLedger::new(1, 8, n(77), 5));
    ledger.remove(9);
    assert_eq!(v(&ledger.get_total_supply(9)), 0);
    assert_eq!(v(&ledger.get_total_supply(8)), 77);
    assert!(ledger.get_by_token_id_by_user_id(9, 1).is_none());
}

#[test]
fn users_are_created_once_per_principal() {
    let mut users = UserRegistry::new();
    let a = users.insert("alice".to_string(), 1);
    let b = users.insert("bob".to_string(), 2);
    let a_again = users.insert("alice".to_string(), 3);
    assert_eq!(a, a_again);
    assert_ne!(a, b);
    assert_eq!(users.users.len(), 2);
}

#[test]
fn claim_rows_remember_their_origin() {
    let mut claims = ClaimLedger::new();
    let id = claims.insert(StableClaim::new(7, 3, n(500), Some(42), None, 9));
    let idx = claims.index_of_claim_id(id).unwrap();
    let c = &claims.claims[idx];
    assert!(matches!(c.status, ClaimStatus::Unclaimed));
    assert_eq!(c.user_id, 7);
    assert_eq!(c.token_id, 3);
    assert_eq!(v(&c.amount), 500);
    assert_eq!(c.request_id, Some(42));
}
