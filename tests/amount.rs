use reentrancy_guard_stylus::account::Account;
use reentrancy_guard_stylus::amount::Amount;
use alloy_primitives::{Address, U256};

fn amount(u: U256) -> Amount {
    Amount::from_limbs(u.into_limbs())
}

#[test]
fn add_carries_across_limbs() {
    let a = amount(U256::from(u64::MAX));
    let b = Amount::from_u64(1);
    let s = a.checked_add(&b).unwrap();
    assert_eq!(s.into_limbs(), [0, 1, 0, 0]);
    assert_eq!(s.into_limbs(), (U256::from(u64::MAX) + U256::from(1)).into_limbs());
}

#[test]
fn add_overflow_is_none() {
    let max = amount(U256::MAX);
    assert!(max.checked_add(&Amount::from_u64(1)).is_none());
    assert!(max.checked_add(&Amount::zero()).is_some());
}

#[test]
fn sub_borrows_across_limbs() {
    let a = amount(U256::from(1u128 << 64));
    let d = a.checked_sub(&Amount::from_u64(1)).unwrap();
    assert_eq!(d.into_limbs(), [u64::MAX, 0, 0, 0]);
}

#[test]
fn sub_below_zero_is_none() {
    assert!(Amount::from_u64(5).checked_sub(&Amount::from_u64(6)).is_none());
    assert!(Amount::from_u64(5).checked_sub(&Amount::from_u64(5)).unwrap().is_zero());
}

#[test]
fn comparison_follows_the_most_significant_limb() {
    let small = Amount::from_limbs([u64::MAX, u64::MAX, 0, 0]);
    let large = Amount::from_limbs([0, 0, 1, 0]);
    assert!(small.lt(&large));
    assert!(!large.lt(&small));
    assert!(!large.lt(&large));
    assert!(large.same_as(&Amount::from_limbs([0, 0, 1, 0])));
    assert!(!large.same_as(&small));
}

#[test]
fn accounts_compare_by_address() {
    let a = Account::new(Address::repeat_byte(0xaa).into_array());
    let b = Account::new(Address::repeat_byte(0xbb).into_array());
    assert!(a.same_as(&Account::new(Address::repeat_byte(0xaa).into_array())));
    assert!(!a.same_as(&b));
    assert!(Account::zero().same_as(&Account::new(Address::ZERO.into_array())));
    assert_eq!(a.to_bytes(), [0xaa; 20]);
}
