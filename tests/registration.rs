use ronin_registry::{AccountId, TransactionContract, TransactionError};

fn account(b: u8) -> AccountId {
    AccountId([b; 32])
}

fn id_of_len(n: usize) -> Vec<u8> {
    (0..n).map(|i| b'0' + (i % 10) as u8).collect()
}

#[test]
fn new_registry_lists_nothing() {
    let reg = TransactionContract::new();
    assert!(reg.list_submitted_users().is_empty());
}

#[test]
fn valid_submission_is_listed_with_author_wallet() {
    let mut reg = TransactionContract::new();
    let id = b"123456789012345678".to_vec();
    let name = b"alice".to_vec();
    assert_eq!(reg.submit_transaction(account(1), id.clone(), name.clone()), Ok(()));
    let rows = reg.list_submitted_users();
    assert_eq!(rows, vec![(String::from("YOUR_RONIN_WALLET"), account(1), id, name)]);
}

#[test]
fn nineteen_byte_identifier_is_accepted() {
    let mut reg = TransactionContract::new();
    assert_eq!(reg.submit_transaction(account(2), id_of_len(19), Vec::new()), Ok(()));
    let rows = reg.list_submitted_users();
    assert_eq!(rows.len(), 1);
    assert_eq!(rows[0].2, id_of_len(19));
    assert!(rows[0].3.is_empty());
}

#[test]
fn second_submission_fails_for_every_caller() {
    let mut reg = TransactionContract::new();
    assert_eq!(reg.submit_transaction(account(1), id_of_len(18), b"a".to_vec()), Ok(()));
    assert_eq!(
        reg.submit_transaction(account(1), id_of_len(18), b"b".to_vec()),
        Err(TransactionError::SubmissionLimitReached)
    );
    assert_eq!(
        reg.submit_transaction(account(7), id_of_len(19), b"c".to_vec()),
        Err(TransactionError::SubmissionLimitReached)
    );
    let rows = reg.list_submitted_users();
    assert_eq!(rows.len(), 1);
    assert_eq!(rows[0].1, account(1));
    assert_eq!(rows[0].3, b"a".to_vec());
}

#[test]
fn limit_applies_before_length() {
    let mut reg = TransactionContract::new();
    assert_eq!(reg.submit_transaction(account(1), id_of_len(18), Vec::new()), Ok(()));
    assert_eq!(
        reg.submit_transaction(account(3), id_of_len(5), Vec::new()),
        Err(TransactionError::SubmissionLimitReached)
    );
}

#[test]
fn short_identifier_is_rejected_and_nothing_changes() {
    let mut reg = TransactionContract::new();
    assert_eq!(
        reg.submit_transaction(account(1), id_of_len(17), b"bob".to_vec()),
        Err(TransactionError::InvalidDiscordIDLength)
    );
    assert!(reg.list_submitted_users().is_empty());
    assert_eq!(reg.submit_transaction(account(1), id_of_len(18), b"bob".to_vec()), Ok(()));
}

#[test]
fn long_identifier_is_rejected() {
    let mut reg = TransactionContract::new();
    assert_eq!(
        reg.submit_transaction(account(1), id_of_len(20), Vec::new()),
        Err(TransactionError::InvalidDiscordIDLength)
    );
    assert!(reg.list_submitted_users().is_empty());
}

#[test]
fn empty_identifier_is_rejected() {
    let mut reg = TransactionContract::new();
    assert_eq!(
        reg.submit_transaction(account(1), Vec::new(), Vec::new()),
        Err(TransactionError::InvalidDiscordIDLength)
    );
    assert_eq!(reg.submit_transaction(account(4), id_of_len(19), Vec::new()), Ok(()));
    assert_eq!(reg.list_submitted_users()[0].1, account(4));
}
