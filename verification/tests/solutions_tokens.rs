use inklings::solutions::account::{Address, Balances};
use inklings::solutions::basics2::{Basic2, Error};
use inklings::solutions::events2::{Events2, Transfer};

fn alice() -> Address {
    Address { upper: 0x0101_0101, lower: 0x0101_0101_0101_0101_0101_0101_0101_0101 }
}

fn bob() -> Address {
    Address { upper: 0x0202_0202, lower: 0x0202_0202_0202_0202_0202_0202_0202_0202 }
}

#[test]
fn balances_default_to_nothing() {
    let mut balances = Balances::new();
    assert_eq!(balances.get(alice()), None);
    assert_eq!(balances.balance_of(alice()), 0);
    balances.insert(alice(), 5);
    balances.insert(bob(), 7);
    balances.insert(alice(), 9);
    assert_eq!(balances.get(alice()), Some(9));
    assert_eq!(balances.balance_of(bob()), 7);
    // Two addresses that agree in one half only are two accounts.
    assert_eq!(balances.get(Address { upper: alice().upper, lower: bob().lower }), None);
}

#[test]
fn new_works() {
    let contract = Basic2::new();
    assert_eq!(contract.balance_of(alice()), 0);
}

#[test]
fn mint_works() {
    let mut contract = Basic2::new();
    assert_eq!(contract.mint(alice(), 100), Ok(()));
    assert_eq!(contract.balance_of(alice()), 100);

    assert_eq!(contract.mint(alice(), 50), Ok(()));
    assert_eq!(contract.balance_of(alice()), 150);
}

#[test]
fn mint_zero_fails() {
    let mut contract = Basic2::new();
    assert_eq!(contract.mint(alice(), 0), Err(Error::ZeroAmount));
}

#[test]
fn mint_overflows() {
    let mut contract = Basic2::new();
    assert_eq!(contract.mint(alice(), u128::MAX), Ok(()));
    assert_eq!(contract.mint(alice(), 1), Err(Error::Overflow));
    assert_eq!(contract.balance_of(alice()), u128::MAX);
}

#[test]
fn burn_works() {
    let mut contract = Basic2::new();
    assert_eq!(contract.mint(alice(), 100), Ok(()));
    assert_eq!(contract.burn(alice(), 30), Ok(()));
    assert_eq!(contract.balance_of(alice()), 70);
}

#[test]
fn burn_zero_fails() {
    let mut contract = Basic2::new();
    assert_eq!(contract.burn(alice(), 0), Err(Error::ZeroAmount));
}

#[test]
fn burn_insufficient_balance() {
    let mut contract = Basic2::new();
    assert_eq!(contract.mint(alice(), 50), Ok(()));
    assert_eq!(contract.burn(alice(), 100), Err(Error::InsufficientBalance));
    assert_eq!(contract.balance_of(alice()), 50);
}

#[test]
fn transfer_works() {
    let mut contract = Basic2::new();
    assert_eq!(contract.mint(alice(), 100), Ok(()));
    assert_eq!(contract.transfer(alice(), bob(), 30), Ok(()));

    assert_eq!(contract.balance_of(alice()), 70);
    assert_eq!(contract.balance_of(bob()), 30);
}

#[test]
fn transfer_insufficient_balance() {
    let mut contract = Basic2::new();
    assert_eq!(contract.mint(alice(), 50), Ok(()));
    assert_eq!(contract.transfer(alice(), bob(), 100), Err(Error::InsufficientBalance));

    // Balances should remain unchanged
    assert_eq!(contract.balance_of(alice()), 50);
    assert_eq!(contract.balance_of(bob()), 0);
}

#[test]
fn transfer_zero_fails() {
    let mut contract = Basic2::new();
    assert_eq!(contract.transfer(bob(), bob(), 0), Err(Error::ZeroAmount));
}

#[test]
fn transfer_overflow_changes_nothing() {
    let mut contract = Basic2::new();
    assert_eq!(contract.mint(alice(), 10), Ok(()));
    assert_eq!(contract.mint(bob(), u128::MAX), Ok(()));
    assert_eq!(contract.transfer(alice(), bob(), 1), Err(Error::Overflow));
    assert_eq!(contract.balance_of(alice()), 10);
    assert_eq!(contract.balance_of(bob()), u128::MAX);
}

#[test]
fn transfer_to_oneself_adds_the_amount() {
    let mut contract = Basic2::new();
    assert_eq!(contract.mint(alice(), 100), Ok(()));
    assert_eq!(contract.transfer(alice(), alice(), 30), Ok(()));
    assert_eq!(contract.balance_of(alice()), 130);
}

#[test]
fn supply_new_works() {
    let contract = Events2::new(alice(), 1000);
    assert_eq!(contract.balance_of(alice()), 1000);
    assert_eq!(contract.total_supply(), 1000);
}

#[test]
fn supply_transfer_works() {
    let mut contract = Events2::new(alice(), 1000);
    assert_eq!(
        contract.transfer(alice(), bob(), 100),
        Ok(Transfer { from: Some(alice()), to: Some(bob()), value: 100 })
    );
    assert_eq!(contract.balance_of(alice()), 900);
    assert_eq!(contract.balance_of(bob()), 100);
    assert_eq!(contract.total_supply(), 1000);
}

#[test]
fn supply_transfer_to_oneself_changes_nothing() {
    let mut contract = Events2::new(alice(), 1000);
    assert!(contract.transfer(alice(), alice(), 400).is_ok());
    assert_eq!(contract.balance_of(alice()), 1000);
}

#[test]
fn supply_transfer_insufficient_balance() {
    let mut contract = Events2::new(alice(), 1000);
    assert_eq!(
        contract.transfer(alice(), bob(), 1001),
        Err(inklings::solutions::events2::Error::InsufficientBalance)
    );
    assert_eq!(contract.balance_of(alice()), 1000);
    assert_eq!(contract.balance_of(bob()), 0);
}

#[test]
fn supply_mint_works() {
    let mut contract = Events2::new(alice(), 1000);
    assert_eq!(contract.mint(bob(), 500), Ok(Transfer { from: None, to: Some(bob()), value: 500 }));
    assert_eq!(contract.balance_of(bob()), 500);
    assert_eq!(contract.total_supply(), 1500);
}
