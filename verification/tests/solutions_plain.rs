use inklings::solutions::account::Address;
use inklings::solutions::basics1::{Basic1, Error};
use inklings::solutions::events1::{Events1, Incremented};
use inklings::solutions::intro1::Intro1;
use inklings::solutions::intro2::Intro2;

fn alice() -> Address {
    Address { upper: 0x0101_0101, lower: 0x0101_0101_0101_0101_0101_0101_0101_0101 }
}

fn bob() -> Address {
    Address { upper: 0x0202_0202, lower: 0x0202_0202_0202_0202_0202_0202_0202_0202 }
}

#[test]
fn default_works() {
    let intro1 = Intro1::default();
    assert_eq!(intro1.get(), false);
}

#[test]
fn flip_works() {
    let mut intro1 = Intro1::new(false);
    assert_eq!(intro1.get(), false);
    intro1.flip();
    assert_eq!(intro1.get(), true);
}

#[test]
fn flip_twice_gives_the_value_back() {
    let mut intro1 = Intro1::new(true);
    intro1.flip();
    intro1.flip();
    assert_eq!(intro1.get(), true);
}

#[test]
fn counter_works() {
    let mut contract = Intro2::new();
    assert_eq!(contract.get_counter(), 0);
    contract.increment();
    assert_eq!(contract.get_counter(), 1);
    contract.increment();
    assert_eq!(contract.get_counter(), 2);
}

#[test]
fn balance_works() {
    let mut contract = Intro2::new();
    assert_eq!(contract.get_balance(alice()), 0);
    contract.set_balance(alice(), 100);
    assert_eq!(contract.get_balance(alice()), 100);
    contract.set_balance(alice(), 200);
    assert_eq!(contract.get_balance(alice()), 200);
    assert_eq!(contract.get_balance(bob()), 0);
    assert_eq!(contract.get_counter(), 0);
}

#[test]
fn test_add() {
    let contract = Basic1::new(10);
    assert_eq!(contract.get_value(), 10);
}

#[test]
fn add_works() {
    let mut contract = Basic1::new(10);
    assert_eq!(contract.add(5), Ok(()));
    assert_eq!(contract.get_value(), 15);
}

#[test]
fn add_overflows() {
    let mut contract = Basic1::new(u32::MAX);
    assert_eq!(contract.add(1), Err(Error::Overflow));
    assert_eq!(contract.get_value(), u32::MAX);
}

#[test]
fn subtract_works() {
    let mut contract = Basic1::new(10);
    assert_eq!(contract.subtract(3), Ok(()));
    assert_eq!(contract.get_value(), 7);
}

#[test]
fn subtract_underflow() {
    let mut contract = Basic1::new(5);
    assert_eq!(contract.subtract(10), Err(Error::Underflow));
    assert_eq!(contract.get_value(), 5);
}

#[test]
fn multiply_works() {
    let mut contract = Basic1::new(10);
    assert_eq!(contract.multiply(3), Ok(()));
    assert_eq!(contract.get_value(), 30);
}

#[test]
fn multiply_overflow() {
    let mut contract = Basic1::new(u32::MAX);
    assert_eq!(contract.multiply(2), Err(Error::Overflow));
}

#[test]
fn divide_works() {
    let mut contract = Basic1::new(20);
    assert_eq!(contract.divide(4), Ok(()));
    assert_eq!(contract.get_value(), 5);
}

#[test]
fn divide_by_zero() {
    let mut contract = Basic1::new(20);
    assert_eq!(contract.divide(0), Err(Error::DivisionByZero));
    assert_eq!(contract.get_value(), 20);
}

#[test]
fn divide_rounds_down() {
    let mut contract = Basic1::new(7);
    assert_eq!(contract.divide(2), Ok(()));
    assert_eq!(contract.get_value(), 3);
}

#[test]
fn increment_works() {
    let mut contract = Events1::new();
    assert_eq!(contract.get(), 0);
    contract.increment(alice());
    assert_eq!(contract.get(), 1);
    contract.increment(alice());
    assert_eq!(contract.get(), 2);
}

#[test]
fn emits_event() {
    let mut contract = Events1::new();
    let event = contract.increment(bob());
    assert_eq!(event, Incremented { value: 1, by: bob() });
    assert_eq!(contract.get(), 1);
}
