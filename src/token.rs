//! The token ledger: who holds how much, and the one operation that moves
//! tokens between accounts.

use vstd::prelude::*;
use near_sdk::collections::UnorderedMap;
use crate::model::{
    apply_transfer,
    balance_in,
    can_transfer,
    initial_entries,
    is_ledger,
    lemma_initial_is_ledger,
    lemma_transfer_step,
    lemma_two_balances_le_total,
    total_of,
    with_balance,
};
use crate::storage::{map_get, map_insert, map_remove, new_map, stored_entries};

verus! {

/// Storage prefix under which the balance map keeps its entries: the byte
/// of the letter `b`.
const BALANCES_PREFIX: u8 = 98;

/// Why a ledger operation was refused. A refused operation changes nothing.
/// Running an operation before the ledger exists, or creating it twice, is
/// refused by the host that keeps the ledger between calls.
#[derive(Debug, Clone, Copy, PartialEq, Eq, Structural)]
pub enum TokenError {
    /// The caller holds less than the amount it asked to transfer.
    InsufficientBalance,
}

/// Relies on `near_sdk::env::predecessor_account_id`: the account that made
/// the current call, as the host reports it. Nothing is assumed of which
/// account that is.
#[verifier::external_body]
fn predecessor_account() -> (r: String) {
    near_sdk::env::predecessor_account_id()
}

/// The account on whose behalf the current call runs. It can only be had
/// from the host's call context, so a transfer can only debit the account
/// that actually made the call.
pub struct Caller {
    account: String,
}

impl View for Caller {
    type V = Seq<char>;

    closed spec fn view(&self) -> Seq<char> {
        self.account@
    }
}

impl Caller {
    /// The caller of the current call, read from the host's context.
    pub fn from_context() -> (r: Caller) {
        Caller { account: predecessor_account() }
    }

    /// The caller's account identifier.
    pub fn account_id(&self) -> (r: &String)
        ensures
            r@ == self@,
    {
        &self.account
    }
}

/// A fungible-token ledger: a fixed total supply spread over accounts.
pub struct Token {
    owner_id: String,
    balances: UnorderedMap<String, u128>,
    total_supply: u128,
}

impl Token {
    /// The account that created the ledger.
    pub closed spec fn owner(&self) -> Seq<char> {
        self.owner_id@
    }

    /// The stored balances; an account without an entry holds zero.
    pub closed spec fn entries(&self) -> Map<Seq<char>, u128> {
        stored_entries(self.balances)
    }

    /// The total supply fixed when the ledger was created.
    pub closed spec fn supply(&self) -> u128 {
        self.total_supply
    }

    /// What `account` holds.
    pub open spec fn balance(&self, account: Seq<char>) -> nat {
        balance_in(self.entries(), account)
    }

    /// The ledger's invariant: finitely many entries, none of them zero, and
    /// the balances add up to the total supply.
    pub open spec fn wf(&self) -> bool {
        &&& is_ledger(self.entries())
        &&& total_of(self.entries()) == self.supply()
    }

    /// Creates the ledger and credits the whole supply to `owner_id`.
    pub fn new(owner_id: String, total_supply: u128) -> (r: Token)
        ensures
            r.wf(),
            r.owner() == owner_id@,
            r.supply() == total_supply,
            r.entries() == initial_entries(owner_id@, total_supply),
    {
        let mut balances = new_map(vec![BALANCES_PREFIX]);
        if total_supply > 0 {
            map_insert(&mut balances, &owner_id, total_supply);
        }
        proof {
            lemma_initial_is_ledger(owner_id@, total_supply);
            assert(stored_entries(balances) =~= initial_entries(owner_id@, total_supply));
        }
        Token { owner_id, balances, total_supply }
    }

    /// Rebuilds a ledger from the record the host persisted: its owner, its
    /// balance map and its total supply. A record committed after a
    /// successful call satisfies `wf`; nothing else is checked here.
    pub fn from_parts(owner_id: String, balances: UnorderedMap<String, u128>, total_supply: u128) -> (r:
        Token)
        ensures
            r.owner() == owner_id@,
            r.entries() == stored_entries(balances),
            r.supply() == total_supply,
    {
        Token { owner_id, balances, total_supply }
    }

    /// The account that created the ledger, as the host persists it.
    pub fn owner_id(&self) -> (r: &String)
        ensures
            r@ == self.owner(),
    {
        &self.owner_id
    }

    /// The balance map, as the host persists it.
    pub fn balances(&self) -> (r: &UnorderedMap<String, u128>)
        ensures
            stored_entries(*r) == self.entries(),
    {
        &self.balances
    }

    /// What `account_id` holds: its stored balance, or zero.
    pub fn get_balance(&self, account_id: &String) -> (r: u128)
        ensures
            r == self.balance(account_id@),
    {
        match map_get(&self.balances, account_id) {
            Some(b) => b,
            None => 0,
        }
    }

    /// The total supply fixed when the ledger was created.
    pub fn total_supply(&self) -> (r: u128)
        ensures
            r == self.supply(),
    {
        self.total_supply
    }

    /// Sets the stored balance of `account`, dropping the entry at zero.
    fn store_balance(&mut self, account: &String, value: u128)
        ensures
            final(self).entries() == with_balance(old(self).entries(), account@, value),
            final(self).owner() == old(self).owner(),
            final(self).supply() == old(self).supply(),
    {
        if value == 0 {
            map_remove(&mut self.balances, account);
        } else {
            map_insert(&mut self.balances, account, value);
        }
    }

    /// Moves `amount` from the calling account to `receiver_id`. Fails with
    /// `InsufficientBalance`, changing nothing, where the caller holds less.
    pub fn transfer(&mut self, caller: &Caller, receiver_id: &String, amount: u128) -> (r: Result<
        (),
        TokenError,
    >)
        requires
            old(self).wf(),
        ensures
            final(self).wf(),
            final(self).owner() == old(self).owner(),
            final(self).supply() == old(self).supply(),
            final(self).entries() == apply_transfer(
                old(self).entries(),
                caller@,
                receiver_id@,
                amount,
            ),
            r == (if can_transfer(old(self).entries(), caller@, amount) {
                Ok(())
            } else {
                Err(TokenError::InsufficientBalance)
            }),
            r is Err ==> *final(self) == *old(self),
    {
        let sender_id = caller.account_id();
        let sender_balance = self.get_balance(sender_id);
        let receiver_balance = self.get_balance(receiver_id);
        if sender_balance < amount {
            return Err(TokenError::InsufficientBalance);
        }
        if *sender_id == *receiver_id {
            // Debit and credit of the same account cancel out.
            return Ok(());
        }
        proof {
            lemma_transfer_step(self.entries(), caller@, receiver_id@, amount);
            lemma_two_balances_le_total(self.entries(), caller@, receiver_id@);
        }
        self.store_balance(sender_id, sender_balance - amount);
        self.store_balance(receiver_id, receiver_balance + amount);
        Ok(())
    }
}

} // verus!
