//! The ledger as a mathematical object: a finite map from account
//! identifier to a positive balance, where an absent account holds zero.

use vstd::prelude::*;

verus! {

/// The balance of `account`: its entry, or zero where it has none.
pub open spec fn balance_in(m: Map<Seq<char>, u128>, account: Seq<char>) -> nat {
    if m.contains_key(account) {
        m[account] as nat
    } else {
        0
    }
}

/// The sum of all balances of a finite map.
pub open spec fn total_of(m: Map<Seq<char>, u128>) -> int
    decreases m.dom().len(),
    when m.dom().finite()
    via total_of_decreases
{
    if m.dom().len() > 0 {
        let k = m.dom().choose();
        m[k] + total_of(m.remove(k))
    } else {
        0
    }
}

#[via_fn]
proof fn total_of_decreases(m: Map<Seq<char>, u128>) {
    if m.dom().len() > 0 {
        let k = m.dom().choose();
        assert(m.dom().contains(k)) by {
            if m.dom() =~= Set::empty() {
                assert(m.dom().len() == 0);
            }
        }
        assert(m.remove(k).dom() =~= m.dom().remove(k));
    }
}

/// No zero balance is ever stored: an account that holds nothing has no entry.
pub open spec fn is_sparse(m: Map<Seq<char>, u128>) -> bool {
    forall|a: Seq<char>| #[trigger] m.contains_key(a) ==> m[a] > 0
}

/// A map that can hold a ledger's balances: finite, sparse, and with a total
/// that a balance can hold.
pub open spec fn is_ledger(m: Map<Seq<char>, u128>) -> bool {
    &&& m.dom().finite()
    &&& is_sparse(m)
    &&& total_of(m) <= u128::MAX
}

/// `m` with the balance of `account` set to `value`, keeping the map sparse.
pub open spec fn with_balance(m: Map<Seq<char>, u128>, account: Seq<char>, value: u128) -> Map<
    Seq<char>,
    u128,
> {
    if value == 0 {
        m.remove(account)
    } else {
        m.insert(account, value)
    }
}

/// The balances of a ledger just created for `owner` with `supply` tokens.
pub open spec fn initial_entries(owner: Seq<char>, supply: u128) -> Map<Seq<char>, u128> {
    with_balance(Map::empty(), owner, supply)
}

/// Whether `caller` holds at least `amount`.
pub open spec fn can_transfer(m: Map<Seq<char>, u128>, caller: Seq<char>, amount: u128) -> bool {
    amount <= balance_in(m, caller)
}

/// The balances after `caller` moves `amount` to `receiver`: unchanged where
/// the caller holds too little or pays itself; otherwise the caller's balance
/// drops by `amount` and the receiver's grows by it.
pub open spec fn apply_transfer(
    m: Map<Seq<char>, u128>,
    caller: Seq<char>,
    receiver: Seq<char>,
    amount: u128,
) -> Map<Seq<char>, u128> {
    if !can_transfer(m, caller, amount) || caller == receiver {
        m
    } else {
        let debited = with_balance(m, caller, (balance_in(m, caller) - amount) as u128);
        with_balance(debited, receiver, (balance_in(m, receiver) + amount) as u128)
    }
}

/// Taking one account out of the total leaves the sum of the others.
pub proof fn lemma_total_remove(m: Map<Seq<char>, u128>, k: Seq<char>)
    requires
        m.dom().finite(),
        m.contains_key(k),
    ensures
        total_of(m) == m[k] + total_of(m.remove(k)),
    decreases m.dom().len(),
{
    assert(m.dom().len() > 0) by {
        if m.dom().len() == 0 {
            Set::lemma_len0_is_empty(m.dom());
        }
    }
    let c = m.dom().choose();
    assert(m.remove(c).dom() =~= m.dom().remove(c));
    assert(m.remove(k).dom() =~= m.dom().remove(k));
    if c != k {
        lemma_total_remove(m.remove(c), k);
        lemma_total_remove(m.remove(k), c);
        assert(m.remove(c).remove(k) =~= m.remove(k).remove(c));
    }
}

/// A sum of balances is never negative.
pub proof fn lemma_total_nonneg(m: Map<Seq<char>, u128>)
    requires
        m.dom().finite(),
    ensures
        total_of(m) >= 0,
    decreases m.dom().len(),
{
    if m.dom().len() > 0 {
        let c = m.dom().choose();
        assert(m.remove(c).dom() =~= m.dom().remove(c));
        lemma_total_nonneg(m.remove(c));
    }
}

/// One account holds no more than the total.
pub proof fn lemma_balance_le_total(m: Map<Seq<char>, u128>, a: Seq<char>)
    requires
        m.dom().finite(),
    ensures
        balance_in(m, a) <= total_of(m),
{
    lemma_total_nonneg(m);
    if m.contains_key(a) {
        lemma_total_remove(m, a);
        lemma_total_nonneg(m.remove(a));
    }
}

/// Two distinct accounts together hold no more than the total.
pub proof fn lemma_two_balances_le_total(m: Map<Seq<char>, u128>, a: Seq<char>, b: Seq<char>)
    requires
        m.dom().finite(),
        a != b,
    ensures
        balance_in(m, a) + balance_in(m, b) <= total_of(m),
{
    if m.contains_key(a) {
        lemma_total_remove(m, a);
        lemma_balance_le_total(m.remove(a), b);
        assert(balance_in(m.remove(a), b) == balance_in(m, b));
    } else {
        lemma_balance_le_total(m, b);
    }
}

/// Setting one balance changes the total by the difference.
pub proof fn lemma_total_with_balance(m: Map<Seq<char>, u128>, a: Seq<char>, v: u128)
    requires
        m.dom().finite(),
    ensures
        with_balance(m, a, v).dom().finite(),
        total_of(with_balance(m, a, v)) == total_of(m) - balance_in(m, a) + v,
        balance_in(with_balance(m, a, v), a) == v,
        forall|b: Seq<char>| b != a ==> balance_in(with_balance(m, a, v), b) == balance_in(m, b),
        is_sparse(m) ==> is_sparse(with_balance(m, a, v)),
{
    let rest = m.remove(a);
    if m.contains_key(a) {
        lemma_total_remove(m, a);
    } else {
        assert(rest =~= m);
    }
    if v != 0 {
        let put = m.insert(a, v);
        lemma_total_remove(put, a);
        assert(put.remove(a) =~= rest);
    }
}

/// A transfer keeps a ledger a ledger and keeps its total: where it
/// succeeds between two distinct accounts, the caller loses exactly `amount`,
/// the receiver gains exactly `amount`, and every other balance stays.
pub proof fn lemma_transfer_step(
    m: Map<Seq<char>, u128>,
    caller: Seq<char>,
    receiver: Seq<char>,
    amount: u128,
)
    requires
        is_ledger(m),
    ensures
        is_ledger(apply_transfer(m, caller, receiver, amount)),
        total_of(apply_transfer(m, caller, receiver, amount)) == total_of(m),
        can_transfer(m, caller, amount) && caller != receiver ==> {
            &&& balance_in(apply_transfer(m, caller, receiver, amount), caller) == balance_in(
                m,
                caller,
            ) - amount
            &&& balance_in(apply_transfer(m, caller, receiver, amount), receiver) == balance_in(
                m,
                receiver,
            ) + amount
        },
        forall|a: Seq<char>|
            a != caller && a != receiver ==> balance_in(
                apply_transfer(m, caller, receiver, amount),
                a,
            ) == balance_in(m, a),
{
    if can_transfer(m, caller, amount) && caller != receiver {
        let cb = balance_in(m, caller);
        let rb = balance_in(m, receiver);
        lemma_two_balances_le_total(m, caller, receiver);
        let debited = with_balance(m, caller, (cb - amount) as u128);
        lemma_total_with_balance(m, caller, (cb - amount) as u128);
        assert(balance_in(debited, receiver) == rb);
        lemma_total_with_balance(debited, receiver, (rb + amount) as u128);
    }
}

/// A freshly created ledger holds its whole supply and is well formed.
pub proof fn lemma_initial_is_ledger(owner: Seq<char>, supply: u128)
    ensures
        is_ledger(initial_entries(owner, supply)),
        total_of(initial_entries(owner, supply)) == supply,
{
    let empty = Map::<Seq<char>, u128>::empty();
    assert(empty.dom() =~= Set::empty());
    lemma_total_with_balance(empty, owner, supply);
}

} // verus!
