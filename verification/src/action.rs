//! Calls on token contracts that the factory asks its host to make.

use vstd::prelude::*;

verus! {

/// One call on a token contract. Tokens and holders are named by number.
#[derive(Clone, Copy, Debug, PartialEq, Eq, Structural)]
pub enum Action {
    /// Move `amount` of `token` from one holder to another.
    Transfer { token: u64, from: u64, to: u64, amount: i128 },
    /// Issue `amount` of `token` to a holder.
    Mint { token: u64, to: u64, amount: i128 },
    /// Destroy `amount` of `token` that a holder has.
    Burn { token: u64, from: u64, amount: i128 },
}

/// What carrying out `a` adds to the balance of `who` in `token`.
pub open spec fn change(a: Action, token: u64, who: u64) -> int {
    match a {
        Action::Transfer { token: t, from, to, amount } => if t == token {
            (if to == who { amount as int } else { 0 }) - (if from == who { amount as int } else { 0 })
        } else {
            0
        },
        Action::Mint { token: t, to, amount } => if t == token && to == who { amount as int } else { 0 },
        Action::Burn { token: t, from, amount } => if t == token && from == who { -(amount as int) } else { 0 },
    }
}

/// What carrying out all of `actions` adds to the balance of `who` in `token`.
pub open spec fn net_change(actions: Seq<Action>, token: u64, who: u64) -> int
    decreases actions.len(),
{
    if actions.len() == 0 {
        0
    } else {
        net_change(actions.drop_last(), token, who) + change(actions.last(), token, who)
    }
}

/// Carrying out one list of calls after another adds up their effects.
pub proof fn lemma_net_change_concat(a: Seq<Action>, b: Seq<Action>, token: u64, who: u64)
    ensures
        net_change(a + b, token, who) == net_change(a, token, who) + net_change(b, token, who),
    decreases b.len(),
{
    if b.len() == 0 {
        assert(a + b =~= a);
    } else {
        assert((a + b).drop_last() =~= a + b.drop_last());
        lemma_net_change_concat(a, b.drop_last(), token, who);
    }
}

/// A transfer takes from one holder what it gives to another, and touches no
/// other holder and no other token; one to oneself comes to nothing.
pub proof fn law_transfer_moves(token: u64, from: u64, to: u64, amount: i128, other_token: u64, other: u64)
    requires
        other_token != token,
        other != from,
        other != to,
    ensures
        ({
            let a = Action::Transfer { token, from, to, amount };
            &&& from != to ==> change(a, token, to) == amount && change(a, token, from) == -amount
            &&& from == to ==> change(a, token, to) == 0
            &&& change(a, token, other) == 0
            &&& change(a, other_token, from) == 0
            &&& change(a, other_token, to) == 0
            &&& change(a, other_token, other) == 0
        }),
{
}

/// Minting gives to one holder and burning takes from one holder, of one token
/// only.
pub proof fn law_issue_and_burn_touch_one(token: u64, holder: u64, amount: i128, t: u64, who: u64)
    ensures
        change(Action::Mint { token, to: holder, amount }, token, holder) == amount,
        change(Action::Burn { token, from: holder, amount }, token, holder) == -amount,
        t != token || who != holder ==> change(Action::Mint { token, to: holder, amount }, t, who) == 0,
        t != token || who != holder ==> change(Action::Burn { token, from: holder, amount }, t, who) == 0,
{
}

/// One more call adds its own effect to that of the calls before it; no call
/// has no effect.
pub proof fn law_calls_add_up(calls: Seq<Action>, a: Action, token: u64, who: u64)
    ensures
        net_change(seq![], token, who) == 0,
        net_change(calls.push(a), token, who) == net_change(calls, token, who) + change(a, token, who),
{
    assert(calls.push(a).drop_last() =~= calls);
}

} // verus!
