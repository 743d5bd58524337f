use fit_token::{Caller, Token, TokenError};
use near_sdk::borsh::{BorshDeserialize, BorshSerialize};
use near_sdk::collections::UnorderedMap;
use near_sdk::test_utils::VMContextBuilder;
use near_sdk::{MockedBlockchain, RuntimeFeesConfig, VMConfig};
use std::collections::HashMap;

fn host_with(account: &str, storage: HashMap<Vec<u8>, Vec<u8>>) {
    let mut builder = VMContextBuilder::new();
    builder.context.predecessor_account_id = account.to_string();
    near_sdk::env::set_blockchain_interface(Box::new(MockedBlockchain::new(
        builder.build(),
        VMConfig::default(),
        RuntimeFeesConfig::default(),
        vec![],
        storage,
        HashMap::new(),
        None,
    )));
}

/// Starts a host with empty storage whose calls come from `account`.
fn fresh_host(account: &str) {
    host_with(account, HashMap::new());
}

/// Lets the next calls come from `account`, keeping the storage.
fn act_as(account: &str) {
    let storage = match near_sdk::env::take_blockchain_interface() {
        Some(mut bi) => bi.as_mut_mocked_blockchain().unwrap().take_storage(),
        None => HashMap::new(),
    };
    host_with(account, storage);
}

fn transfer_as(token: &mut Token, caller: &str, receiver: &str, amount: u128) -> Result<(), TokenError> {
    act_as(caller);
    let caller = Caller::from_context();
    token.transfer(&caller, &receiver.to_string(), amount)
}

fn balance(token: &Token, account: &str) -> u128 {
    token.get_balance(&account.to_string())
}

#[test]
fn alice_bob_scenario() {
    fresh_host("alice");
    let mut token = Token::new("alice".to_string(), 1000);
    assert_eq!(balance(&token, "alice"), 1000);
    assert_eq!(balance(&token, "bob"), 0);

    assert_eq!(transfer_as(&mut token, "alice", "bob", 300), Ok(()));
    assert_eq!(balance(&token, "alice"), 700);
    assert_eq!(balance(&token, "bob"), 300);

    assert_eq!(transfer_as(&mut token, "bob", "alice", 500), Err(TokenError::InsufficientBalance));
    assert_eq!(balance(&token, "alice"), 700);
    assert_eq!(balance(&token, "bob"), 300);

    assert_eq!(transfer_as(&mut token, "alice", "alice", 700), Ok(()));
    assert_eq!(balance(&token, "alice"), 700);
    assert_eq!(balance(&token, "bob"), 300);
}

#[test]
fn new_credits_whole_supply_to_owner() {
    fresh_host("carol");
    let token = Token::new("carol".to_string(), 42);
    assert_eq!(balance(&token, "carol"), 42);
    assert_eq!(balance(&token, "dave"), 0);
    assert_eq!(token.total_supply(), 42);
}

#[test]
fn zero_supply_ledger_holds_nothing() {
    fresh_host("carol");
    let mut token = Token::new("carol".to_string(), 0);
    assert_eq!(balance(&token, "carol"), 0);
    assert_eq!(token.total_supply(), 0);
    assert_eq!(transfer_as(&mut token, "carol", "dave", 0), Ok(()));
    assert_eq!(transfer_as(&mut token, "carol", "dave", 1), Err(TokenError::InsufficientBalance));
    assert_eq!(balance(&token, "carol"), 0);
    assert_eq!(balance(&token, "dave"), 0);
}

#[test]
fn transfers_conserve_the_supply() {
    fresh_host("alice");
    let mut token = Token::new("alice".to_string(), 1000);
    let accounts = ["alice", "bob", "carol", "dave"];
    let requests: [(&str, &str, u128); 7] = [
        ("alice", "bob", 250),
        ("bob", "carol", 100),
        ("carol", "dave", 150),
        ("dave", "alice", 1),
        ("alice", "carol", 749),
        ("carol", "carol", 849),
        ("bob", "dave", 150),
    ];
    for (caller, receiver, amount) in requests.iter() {
        let _ = transfer_as(&mut token, caller, receiver, *amount);
        let sum: u128 = accounts.iter().map(|a| balance(&token, a)).sum();
        assert_eq!(sum, 1000);
        assert_eq!(token.total_supply(), 1000);
    }
    assert_eq!(balance(&token, "alice"), 1);
    assert_eq!(balance(&token, "bob"), 0);
    assert_eq!(balance(&token, "carol"), 849);
    assert_eq!(balance(&token, "dave"), 150);
}

#[test]
fn failed_transfer_leaves_balances_alone() {
    fresh_host("alice");
    let mut token = Token::new("alice".to_string(), 10);
    assert_eq!(transfer_as(&mut token, "alice", "bob", 11), Err(TokenError::InsufficientBalance));
    assert_eq!(balance(&token, "alice"), 10);
    assert_eq!(balance(&token, "bob"), 0);
    assert_eq!(transfer_as(&mut token, "bob", "alice", 1), Err(TokenError::InsufficientBalance));
    assert_eq!(balance(&token, "alice"), 10);
    assert_eq!(balance(&token, "bob"), 0);
}

#[test]
fn self_transfer_keeps_balance() {
    fresh_host("erin");
    let mut token = Token::new("erin".to_string(), 5);
    for amount in 0..=5u128 {
        assert_eq!(transfer_as(&mut token, "erin", "erin", amount), Ok(()));
        assert_eq!(balance(&token, "erin"), 5);
    }
    assert_eq!(transfer_as(&mut token, "erin", "erin", 6), Err(TokenError::InsufficientBalance));
    assert_eq!(balance(&token, "erin"), 5);
}

#[test]
fn self_transfer_of_largest_supply_does_not_overflow() {
    fresh_host("erin");
    let mut token = Token::new("erin".to_string(), u128::MAX);
    assert_eq!(transfer_as(&mut token, "erin", "erin", u128::MAX), Ok(()));
    assert_eq!(balance(&token, "erin"), u128::MAX);
}

#[test]
fn largest_supply_moves_whole() {
    fresh_host("erin");
    let mut token = Token::new("erin".to_string(), u128::MAX);
    assert_eq!(transfer_as(&mut token, "erin", "frank", u128::MAX - 1), Ok(()));
    assert_eq!(balance(&token, "erin"), 1);
    assert_eq!(balance(&token, "frank"), u128::MAX - 1);
    assert_eq!(transfer_as(&mut token, "erin", "frank", 1), Ok(()));
    assert_eq!(balance(&token, "erin"), 0);
    assert_eq!(balance(&token, "frank"), u128::MAX);
    assert_eq!(token.total_supply(), u128::MAX);
}

#[test]
fn emptied_account_can_be_funded_again() {
    fresh_host("alice");
    let mut token = Token::new("alice".to_string(), 100);
    assert_eq!(transfer_as(&mut token, "alice", "bob", 100), Ok(()));
    assert_eq!(balance(&token, "alice"), 0);
    assert_eq!(transfer_as(&mut token, "alice", "bob", 1), Err(TokenError::InsufficientBalance));
    assert_eq!(transfer_as(&mut token, "bob", "alice", 40), Ok(()));
    assert_eq!(balance(&token, "alice"), 40);
    assert_eq!(balance(&token, "bob"), 60);
}

#[test]
fn zero_amount_transfer_changes_nothing() {
    fresh_host("alice");
    let mut token = Token::new("alice".to_string(), 100);
    assert_eq!(transfer_as(&mut token, "alice", "bob", 0), Ok(()));
    assert_eq!(balance(&token, "alice"), 100);
    assert_eq!(balance(&token, "bob"), 0);
}

#[test]
fn reads_repeat_without_transfer() {
    fresh_host("alice");
    let mut token = Token::new("alice".to_string(), 77);
    assert_eq!(transfer_as(&mut token, "alice", "bob", 7), Ok(()));
    let first = balance(&token, "bob");
    let second = balance(&token, "bob");
    assert_eq!(first, second);
    assert_eq!(first, 7);
    assert_eq!(token.total_supply(), token.total_supply());
    assert_eq!(token.total_supply(), 77);
}

#[test]
fn caller_comes_from_host_context() {
    fresh_host("grace");
    let caller = Caller::from_context();
    assert_eq!(caller.account_id(), "grace");
    act_as("heidi");
    let caller = Caller::from_context();
    assert_eq!(caller.account_id(), "heidi");
}

#[test]
fn persisted_record_round_trip() {
    fresh_host("alice");
    let mut token = Token::new("alice".to_string(), 500);
    assert_eq!(transfer_as(&mut token, "alice", "bob", 120), Ok(()));
    assert_eq!(token.owner_id(), "alice");
    let bytes = token.balances().try_to_vec().unwrap();
    let balances: UnorderedMap<String, u128> = UnorderedMap::try_from_slice(&bytes).unwrap();
    let mut restored = Token::from_parts(token.owner_id().clone(), balances, token.total_supply());
    assert_eq!(balance(&restored, "alice"), 380);
    assert_eq!(balance(&restored, "bob"), 120);
    assert_eq!(restored.total_supply(), 500);
    assert_eq!(transfer_as(&mut restored, "bob", "carol", 20), Ok(()));
    assert_eq!(balance(&restored, "bob"), 100);
    assert_eq!(balance(&restored, "carol"), 20);
}
