//! What holds of the ledger across operations, stated over the model that
//! the operations' own contracts use.

use vstd::prelude::*;
use crate::model::{
    apply_transfer,
    balance_in,
    can_transfer,
    initial_entries,
    is_ledger,
    is_sparse,
    lemma_initial_is_ledger,
    lemma_transfer_step,
    total_of,
};
use crate::token::Token;

verus! {

/// The balances after the given transfer requests, each a calling account,
/// a receiver and an amount, run one after another on `m`.
pub open spec fn replay(m: Map<Seq<char>, u128>, requests: Seq<(Seq<char>, Seq<char>, u128)>) -> Map<
    Seq<char>,
    u128,
>
    decreases requests.len(),
{
    if requests.len() == 0 {
        m
    } else {
        let (caller, receiver, amount) = requests.last();
        apply_transfer(replay(m, requests.drop_last()), caller, receiver, amount)
    }
}

proof fn lemma_replay_keeps_ledger(
    m: Map<Seq<char>, u128>,
    requests: Seq<(Seq<char>, Seq<char>, u128)>,
)
    requires
        is_ledger(m),
    ensures
        is_ledger(replay(m, requests)),
        total_of(replay(m, requests)) == total_of(m),
    decreases requests.len(),
{
    if requests.len() > 0 {
        let (caller, receiver, amount) = requests.last();
        lemma_replay_keeps_ledger(m, requests.drop_last());
        lemma_transfer_step(replay(m, requests.drop_last()), caller, receiver, amount);
    }
}

/// Conservation: on a ledger created for `owner` with `supply` tokens, after
/// every prefix of any run of transfers the balances add up to `supply`.
pub proof fn transfers_conserve_supply(
    owner: Seq<char>,
    supply: u128,
    requests: Seq<(Seq<char>, Seq<char>, u128)>,
)
    ensures
        forall|i: int|
            0 <= i <= requests.len() ==> total_of(
                #[trigger] replay(initial_entries(owner, supply), requests.take(i)),
            ) == supply,
{
    lemma_initial_is_ledger(owner, supply);
    assert forall|i: int| 0 <= i <= requests.len() implies total_of(
        #[trigger] replay(initial_entries(owner, supply), requests.take(i)),
    ) == supply by {
        lemma_replay_keeps_ledger(initial_entries(owner, supply), requests.take(i));
    }
}

/// Non-negativity: on a ledger created for `owner` with `supply` tokens,
/// after every prefix of any run of transfers each stored balance is
/// positive, and a successful transfer between two accounts lowers the
/// caller's balance by exactly the amount, never below zero.
pub proof fn balances_stay_non_negative(
    owner: Seq<char>,
    supply: u128,
    requests: Seq<(Seq<char>, Seq<char>, u128)>,
)
    ensures
        forall|i: int|
            0 <= i <= requests.len() ==> is_sparse(
                #[trigger] replay(initial_entries(owner, supply), requests.take(i)),
            ),
        forall|i: int|
            0 <= i < requests.len() && can_transfer(
                #[trigger] replay(initial_entries(owner, supply), requests.take(i)),
                requests[i].0,
                requests[i].2,
            ) && requests[i].0 != requests[i].1 ==> balance_in(
                replay(initial_entries(owner, supply), requests.take(i + 1)),
                requests[i].0,
            ) == balance_in(
                replay(initial_entries(owner, supply), requests.take(i)),
                requests[i].0,
            ) - requests[i].2,
{
    let start = initial_entries(owner, supply);
    lemma_initial_is_ledger(owner, supply);
    assert forall|i: int| 0 <= i <= requests.len() implies is_sparse(
        #[trigger] replay(start, requests.take(i)),
    ) by {
        lemma_replay_keeps_ledger(start, requests.take(i));
    }
    assert forall|i: int|
        0 <= i < requests.len() && can_transfer(
            #[trigger] replay(start, requests.take(i)),
            requests[i].0,
            requests[i].2,
        ) && requests[i].0 != requests[i].1 implies balance_in(
        replay(start, requests.take(i + 1)),
        requests[i].0,
    ) == balance_in(replay(start, requests.take(i)), requests[i].0) - requests[i].2 by {
        lemma_replay_keeps_ledger(start, requests.take(i));
        assert(requests.take(i + 1).drop_last() =~= requests.take(i));
        lemma_transfer_step(
            replay(start, requests.take(i)),
            requests[i].0,
            requests[i].1,
            requests[i].2,
        );
    }
}

/// Atomicity on failure: a transfer for more than the caller holds leaves
/// every balance, the caller's and the receiver's included, as it was.
pub proof fn failed_transfer_changes_nothing(
    m: Map<Seq<char>, u128>,
    caller: Seq<char>,
    receiver: Seq<char>,
    amount: u128,
)
    requires
        !can_transfer(m, caller, amount),
    ensures
        apply_transfer(m, caller, receiver, amount) == m,
        balance_in(apply_transfer(m, caller, receiver, amount), caller) == balance_in(m, caller),
        balance_in(apply_transfer(m, caller, receiver, amount), receiver) == balance_in(
            m,
            receiver,
        ),
{
}

/// Self-transfer identity: an account that pays itself any amount it holds
/// keeps its balance, and the whole ledger stays as it was.
pub proof fn self_transfer_is_identity(m: Map<Seq<char>, u128>, account: Seq<char>, amount: u128)
    requires
        amount <= balance_in(m, account),
    ensures
        apply_transfer(m, account, account, amount) == m,
        balance_in(apply_transfer(m, account, account, amount), account) == balance_in(
            m,
            account,
        ),
{
}

/// Idempotent reads: two balance reads of one account, or two supply reads,
/// on a ledger that nothing changed in between, give the same value.
pub proof fn reads_repeat(
    t: Token,
    account: Seq<char>,
    first_balance: u128,
    second_balance: u128,
    first_supply: u128,
    second_supply: u128,
)
    requires
        first_balance == t.balance(account),
        second_balance == t.balance(account),
        first_supply == t.supply(),
        second_supply == t.supply(),
    ensures
        first_balance == second_balance,
        first_supply == second_supply,
{
}

} // verus!
