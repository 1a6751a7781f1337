use ronin_registry::{AccountId, CrudContract, CrudError};

fn account(b: u8) -> AccountId {
    AccountId([b; 32])
}

#[test]
fn construction_seeds_the_creator() {
    let mut reg = CrudContract::new(account(1));
    assert_eq!(
        reg.read_all_messages(),
        vec![(account(1), String::from("I created my CRUD contract"))]
    );
    assert_eq!(reg.read_message_from(account(1)), Ok(String::from("I created my CRUD contract")));
}

#[test]
fn creator_cannot_create_again() {
    let mut reg = CrudContract::new(account(1));
    assert_eq!(
        reg.create_message(account(1), String::from("hello")),
        Err(CrudError::MessageAlreadyCreatedBySender)
    );
    assert_eq!(reg.read_message_from(account(1)), Ok(String::from("I created my CRUD contract")));
}

#[test]
fn create_then_read_returns_the_message() {
    let mut reg = CrudContract::new(account(1));
    assert_eq!(reg.create_message(account(2), String::from("gm ronin")), Ok(()));
    assert_eq!(reg.read_message_from(account(2)), Ok(String::from("gm ronin")));
}

#[test]
fn second_create_is_rejected_and_keeps_the_first() {
    let mut reg = CrudContract::new(account(1));
    assert_eq!(reg.create_message(account(2), String::from("first")), Ok(()));
    assert_eq!(
        reg.create_message(account(2), String::from("second")),
        Err(CrudError::MessageAlreadyCreatedBySender)
    );
    assert_eq!(
        reg.create_message(account(2), String::from("first")),
        Err(CrudError::MessageAlreadyCreatedBySender)
    );
    assert_eq!(reg.read_message_from(account(2)), Ok(String::from("first")));
}

#[test]
fn unknown_sender_is_not_found() {
    let mut reg = CrudContract::new(account(1));
    assert_eq!(reg.read_message_from(account(9)), Err(CrudError::SenderNotFound));
    let mut other = [1u8; 32];
    other[31] = 2;
    assert_eq!(reg.read_message_from(AccountId(other)), Err(CrudError::SenderNotFound));
}

#[test]
fn read_all_follows_creation_order() {
    let mut reg = CrudContract::new(account(5));
    assert_eq!(reg.create_message(account(3), String::from("three")), Ok(()));
    assert_eq!(reg.create_message(account(8), String::from("")), Ok(()));
    assert_eq!(
        reg.create_message(account(3), String::from("again")),
        Err(CrudError::MessageAlreadyCreatedBySender)
    );
    assert_eq!(reg.create_message(account(1), String::from("one")), Ok(()));
    assert_eq!(
        reg.read_all_messages(),
        vec![
            (account(5), String::from("I created my CRUD contract")),
            (account(3), String::from("three")),
            (account(8), String::new()),
            (account(1), String::from("one")),
        ]
    );
}

#[test]
fn account_ids_compare_bytewise() {
    let mut other = [4u8; 32];
    assert_eq!(AccountId(other), account(4));
    other[0] = 5;
    assert_ne!(AccountId(other), account(4));
}
