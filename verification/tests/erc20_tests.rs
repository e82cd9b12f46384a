use erc20::{AccountId, Erc20};

#[test]
fn new_works() {
    let contract = Erc20::new(AccountId::from([0x1; 32]), 777);
    assert_eq!(contract.total_supply(), 777);
}

#[test]
fn balance_works() {
    let contract = Erc20::new(AccountId::from([0x1; 32]), 100);
    assert_eq!(contract.total_supply(), 100);
    assert_eq!(contract.balance_of(AccountId::from([0x1; 32])), 100);
    assert_eq!(contract.balance_of(AccountId::from([0x0; 32])), 0);
}

#[test]
fn transfer_works() {
    let mut contract = Erc20::new(AccountId::from([0x1; 32]), 100);
    assert_eq!(contract.balance_of(AccountId::from([0x1; 32])), 100);
    assert!(contract.transfer(AccountId::from([0x1; 32]), AccountId::from([0x0; 32]), 10));
    assert_eq!(contract.balance_of(AccountId::from([0x0; 32])), 10);
    assert!(!contract.transfer(AccountId::from([0x1; 32]), AccountId::from([0x0; 32]), 100));
}

#[test]
fn transfer_from_works() {
    let mut contract = Erc20::new(AccountId::from([0x1; 32]), 100);
    assert_eq!(contract.balance_of(AccountId::from([0x1; 32])), 100);
    contract.approve(AccountId::from([0x1; 32]), AccountId::from([0x1; 32]), 20);
    contract.transfer_from(
        AccountId::from([0x1; 32]),
        AccountId::from([0x1; 32]),
        AccountId::from([0x0; 32]),
        10,
    );
    assert_eq!(contract.balance_of(AccountId::from([0x0; 32])), 10);
}
