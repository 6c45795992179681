//! What holds of the factory across calls.

use vstd::prelude::*;

use crate::action;
use crate::action::Action;
use crate::creation;
use crate::error::Error;
use crate::factory;
use crate::factory::TtlExtension;
use crate::fees;
use crate::state;
use crate::state::{FactoryState, Records};
use crate::token;
use crate::token::{BatchTokenParams, TokenRecord};

verus! {

/// A factory is set up at most once, whatever is asked for the second time.
pub proof fn law_set_up_once(r: Records, s: FactoryState, base_fee: i128, metadata_fee: i128)
    ensures
        state::setup_refusal(r.with_state(s), base_fee as int, metadata_fee as int) == Some(
            Error::AlreadyInitialized,
        ),
{
}

/// Whatever was left before, the extension that is ordered when a factory is
/// set up leaves storage no less than the minimal life, on a host that lets
/// storage live that long.
pub proof fn law_storage_lives_on(current: u32, limit: u32)
    requires
        factory::MIN_TTL <= limit,
    ensures
        (TtlExtension { threshold: factory::MIN_TTL, extend_to: factory::MAX_TTL }).extended(
            current as int,
            limit as int,
        ) >= factory::MIN_TTL,
{
}

/// Who has passed the office of admin on has lost it, and the successor has it.
pub proof fn law_admin_hands_over(r: Records, admin: u64, new_admin: u64)
    requires
        state::handover_refusal(r, admin, new_admin) is None,
    ensures
        state::admin_refusal(state::handed_over(r, new_admin), admin) == Some(Error::Unauthorized),
        state::admin_refusal(state::handed_over(r, new_admin), new_admin) is None,
{
}

/// Handing the office back restores the records.
pub proof fn law_admin_handed_back(r: Records, admin: u64, new_admin: u64)
    requires
        r.state is Some,
        state::handover_refusal(r, admin, new_admin) is None,
    ensures
        state::handover_refusal(state::handed_over(r, new_admin), new_admin, admin) is None,
        state::handed_over(state::handed_over(r, new_admin), admin) == r,
{
    assert(state::handed_over(state::handed_over(r, new_admin), admin) =~= r);
}

/// Nobody but the admin can change a setting.
pub proof fn law_settings_are_the_admins(
    r: Records,
    caller: u64,
    new_admin: u64,
    base_fee: Option<i128>,
    metadata_fee: Option<i128>,
    fee_split: Map<u64, u32>,
)
    requires
        caller != r.state->0.admin,
    ensures
        state::admin_refusal(r, caller) == Some(Error::Unauthorized),
        state::handover_refusal(r, caller, new_admin) == Some(Error::Unauthorized),
        state::fees_refusal(r, caller, base_fee, metadata_fee) == Some(Error::Unauthorized),
        state::split_refusal(r, caller, fee_split) == Some(Error::Unauthorized),
{
}

/// Pausing stops every call that costs a fee, whatever else is said in it.
pub proof fn law_pause_stops_paid_calls(
    r: Records,
    tokens: Seq<BatchTokenParams>,
    token: u64,
    caller: u64,
    amount: i128,
    fee_payment: i128,
)
    requires
        !r.state->0.locked,
    ensures
        ({
            let p = state::pause_set(r, true);
            let refused = Some(Error::ContractPaused);
            &&& state::creation_refusal(p, tokens, fee_payment as int) == refused
            &&& state::mint_refusal(p, token, caller, amount as int, fee_payment as int) == refused
            &&& state::metadata_refusal(p, token, caller, fee_payment as int) == refused
        }),
{
}

/// Pausing does not touch burning.
pub proof fn law_pause_leaves_burning(r: Records, paused: bool, token: u64, amount: i128, balance: i128)
    ensures
        state::burn_refusal(state::pause_set(r, paused), token, amount as int, balance as int)
            == state::burn_refusal(r, token, amount as int, balance as int),
{
}

/// Opening a factory again undoes a pause.
pub proof fn law_unpause_undoes_pause(r: Records)
    requires
        r.state is Some,
        !r.state->0.paused,
    ensures
        state::pause_set(state::pause_set(r, true), false) == r,
{
    assert(state::pause_set(state::pause_set(r, true), false) =~= r);
}

/// While an order is under way every call that costs a fee is turned away.
pub proof fn law_lock_keeps_out(
    r: Records,
    tokens: Seq<BatchTokenParams>,
    token: u64,
    caller: u64,
    amount: i128,
    fee_payment: i128,
)
    ensures
        ({
            let l = r.with_lock(true);
            let refused = Some(Error::Reentrancy);
            &&& state::creation_refusal(l, tokens, fee_payment as int) == refused
            &&& state::mint_refusal(l, token, caller, amount as int, fee_payment as int) == refused
            &&& state::metadata_refusal(l, token, caller, fee_payment as int) == refused
        }),
{
}

/// An order that is given up leaves no trace: once the lock is released, the
/// records are those from before the order.
pub proof fn law_release_undoes_order(r: Records)
    requires
        r.state is Some,
        !r.state->0.locked,
    ensures
        r.with_lock(true).with_lock(false) == r,
{
    assert(r.with_lock(true).with_lock(false) =~= r);
}

/// Where a token could be minted but for its cap, the cap alone decides: it
/// may be reached and not passed.
pub proof fn law_cap_decides(r: Records, token: u64, amount: i128, fee_payment: i128, cap: i128)
    requires
        r.wf(),
        r.closed_for() is None,
        0 <= fee_payment,
        r.tokens.contains_key(token),
        r.infos[r.tokens[token].index].max_supply == Some(cap),
        0 < amount,
    ensures
        state::mint_refusal(r, token, r.tokens[token].owner, amount as int, fee_payment as int) == (if r.tokens[token].minted
            + amount > cap {
            Some(Error::MaxSupplyExceeded)
        } else {
            None
        }),
{
}

/// Without a cap only the range of numbers limits minting.
pub proof fn law_no_cap_no_limit(r: Records, token: u64, amount: i128, fee_payment: i128)
    requires
        r.closed_for() is None,
        0 <= fee_payment,
        r.tokens.contains_key(token),
        r.infos[r.tokens[token].index].max_supply is None,
        0 < amount,
    ensures
        state::mint_refusal(r, token, r.tokens[token].owner, amount as int, fee_payment as int) == (if r.tokens[token].minted
            + amount > i128::MAX {
            Some(Error::ArithmeticOverflow)
        } else {
            None
        }),
{
}

/// Minting twice counts like minting once as much, against the cap too.
pub proof fn law_mints_add_up(r: Records, token: u64, a: i128, b: i128, fee_a: i128, fee_b: i128)
    requires
        r.wf(),
        state::mint_refusal(r, token, r.tokens[token].owner, a as int, fee_a as int) is None,
        0 < b,
        0 <= fee_b,
        a + b <= i128::MAX,
    ensures
        state::mint_refusal(
            state::minted(r, token, a as int),
            token,
            r.tokens[token].owner,
            b as int,
            fee_b as int,
        ) == state::mint_refusal(r, token, r.tokens[token].owner, a + b, fee_b as int),
        state::mint_refusal(r, token, r.tokens[token].owner, a + b, fee_b as int) is None ==> state::minted(
            state::minted(r, token, a as int),
            token,
            b as int,
        ) == state::minted(r, token, a + b),
{
    let owner = r.tokens[token].owner;
    if state::mint_refusal(r, token, owner, a + b, fee_b as int) is None {
        assert(state::minted(state::minted(r, token, a as int), token, b as int) =~= state::minted(r, token, a + b));
    }
}

/// In records that hang together no token with a cap has been issued past it.
pub proof fn law_issue_within_cap(r: Records, token: u64)
    requires
        r.wf(),
        r.tokens.contains_key(token),
    ensures
        0 <= r.tokens[token].minted,
        r.tokens[token].minted == 0 || state::within_cap(
            r.tokens[token].minted as int,
            r.infos[r.tokens[token].index].max_supply,
        ),
{
}

/// Every token has a description, and no two tokens share one.
pub proof fn law_numbers_are_unique(r: Records, token: u64, other: u64)
    requires
        r.wf(),
        r.tokens.contains_key(token),
        r.tokens.contains_key(other),
        token != other,
    ensures
        r.infos.contains_key(r.tokens[token].index),
        r.tokens[token].index != r.tokens[other].index,
{
}

/// Where a holder could burn but for the switch, the switch alone decides.
pub proof fn law_switch_decides(r: Records, token: u64, enabled: bool, amount: i128, balance: i128)
    requires
        r.tokens.contains_key(token),
        0 < amount <= balance,
    ensures
        state::burn_refusal(state::burn_switched(r, token, enabled), token, amount as int, balance as int) == (if enabled {
            None
        } else {
            Some(Error::BurnNotEnabled)
        }),
{
}

/// Switching one token leaves the others as they were.
pub proof fn law_switch_is_the_tokens_own(
    r: Records,
    token: u64,
    other: u64,
    enabled: bool,
    amount: i128,
    balance: i128,
)
    requires
        r.wf(),
        r.tokens.contains_key(token),
        token != other,
    ensures
        state::burn_refusal(state::burn_switched(r, token, enabled), other, amount as int, balance as int)
            == state::burn_refusal(r, other, amount as int, balance as int),
{
    if r.tokens.contains_key(other) {
        law_numbers_are_unique(r, token, other);
    }
}

/// Switching back restores the records.
pub proof fn law_switch_back(r: Records, token: u64, enabled: bool)
    requires
        r.wf(),
        r.tokens.contains_key(token),
    ensures
        state::burn_switched(
            state::burn_switched(r, token, enabled),
            token,
            r.infos[r.tokens[token].index].burn_enabled,
        ) == r,
{
    let was = r.infos[r.tokens[token].index].burn_enabled;
    assert(r.record_wf(r.tokens[token]));
    assert(state::burn_switched(state::burn_switched(r, token, enabled), token, was) =~= r);
}

/// Metadata is set once: after that not even the owner can set it again.
pub proof fn law_metadata_set_once(r: Records, token: u64, admin: u64, uri: String, fee_payment: i128, again: i128)
    requires
        state::metadata_refusal(r, token, admin, fee_payment as int) is None,
        again >= r.state->0.metadata_fee,
    ensures
        state::metadata_refusal(state::metadata_set(r, token, uri), token, admin, again as int) == Some(
            Error::MetadataAlreadySet,
        ),
{
}

/// The metadata of one token has no bearing on another's.
pub proof fn law_metadata_independent(r: Records, token: u64, other: u64, admin: u64, uri: String, fee_payment: i128)
    requires
        token != other,
    ensures
        state::metadata_refusal(state::metadata_set(r, token, uri), other, admin, fee_payment as int)
            == state::metadata_refusal(r, other, admin, fee_payment as int),
        state::metadata_set(r, token, uri).tokens[other] == r.tokens[other],
{
}

/// Creating tokens costs the base fee for each: less is not accepted, and
/// however much more is offered, just that is paid.
pub proof fn law_batch_costs_base_fee_each(
    r: Records,
    creator: u64,
    tokens: Seq<BatchTokenParams>,
    fee_payment: i128,
)
    requires
        r.wf(),
        r.state is Some,
        r.closed_for() is None,
        tokens.len() > 0,
        r.state->0.base_fee * tokens.len() <= i128::MAX,
    ensures
        state::creation_refusal(r, tokens, fee_payment as int) == Some(Error::InsufficientFee) <==> fee_payment
            < r.state->0.base_fee * tokens.len(),
        fees::amount_moved(r.fee_payments(creator, r.state->0.base_fee * tokens.len())) == r.state->0.base_fee
            * tokens.len(),
{
    let s = r.state->0;
    let fee = s.base_fee * tokens.len();
    assert(0 <= fee) by (nonlinear_arith)
        requires
            fee == s.base_fee * tokens.len(),
            0 <= s.base_fee,
    ;
    lemma_fault_is_no_fee(tokens);
    fees::law_fee_paid_in_full(s.fee_token, creator, s.treasury, fee as i128, r.fee_split);
}

/// While no split is in force, whoever creates a token, the treasury apart,
/// adds exactly the base fee to the treasury.
pub proof fn law_creation_pays_treasury(r: Records, creator: u64)
    requires
        r.wf(),
        r.state is Some,
        r.fee_split.dom().is_empty(),
        creator != r.state->0.treasury,
    ensures
        action::net_change(
            r.fee_payments(creator, r.state->0.base_fee as int),
            r.state->0.fee_token,
            r.state->0.treasury,
        ) == r.state->0.base_fee,
{
    law_fee_reaches_treasury(r, creator, r.state->0.base_fee);
}

proof fn lemma_fault_is_no_fee(tokens: Seq<BatchTokenParams>)
    ensures
        token::first_fault(tokens) != Some(Error::InsufficientFee),
    decreases tokens.len(),
{
    if tokens.len() > 0 {
        lemma_fault_is_no_fee(tokens.drop_last());
    }
}

/// One token that cannot be created keeps the whole batch from being created.
pub proof fn law_one_fault_refuses_batch(r: Records, tokens: Seq<BatchTokenParams>, fee_payment: i128, i: int)
    requires
        0 <= i < tokens.len(),
        token::token_fault(tokens[i]) is Some,
    ensures
        state::creation_refusal(r, tokens, fee_payment as int) is Some,
{
    if token::first_fault(tokens) is None {
        token::lemma_no_fault(tokens, i);
    }
}

/// Once an order has been entered, each of its tokens is found under its
/// address and its number as it was asked for.
pub proof fn law_created_tokens_are_found(
    r: Records,
    creator: u64,
    tokens: Seq<BatchTokenParams>,
    addresses: Seq<u64>,
    now: u64,
    n: nat,
    i: int,
)
    requires
        r.state is Some,
        r.state->0.token_count + n <= u32::MAX,
        n <= tokens.len() == addresses.len(),
        state::all_new(r, addresses),
        0 <= i < n,
    ensures
        ({
            let c = r.created_all(creator, tokens, addresses, now, n);
            let index = (r.state->0.token_count + 1 + i) as u32;
            &&& c.tokens.contains_key(addresses[i])
            &&& c.tokens[addresses[i]] == (TokenRecord {
                index,
                owner: creator,
                minted: tokens[i].initial_supply as i128,
                metadata: None,
            })
            &&& c.infos.contains_key(index)
            &&& c.infos[index] == state::info_of(tokens[i], creator, now)
        }),
    decreases n,
{
    let m = (n - 1) as nat;
    creation::lemma_created_all(r, creator, tokens, addresses, now, m);
    if i < m {
        law_created_tokens_are_found(r, creator, tokens, addresses, now, m, i);
        assert(addresses[i] != addresses[m as int]);
    }
}

/// Entering an order counts its tokens, lists their numbers under their
/// creator, and leaves every other token and every other creator's list as
/// they were.
pub proof fn law_created_tokens_are_added(
    r: Records,
    creator: u64,
    tokens: Seq<BatchTokenParams>,
    addresses: Seq<u64>,
    now: u64,
    n: nat,
    other: u64,
    other_creator: u64,
)
    requires
        r.state is Some,
        r.state->0.token_count + n <= u32::MAX,
        n <= tokens.len() == addresses.len(),
        forall|i: int| 0 <= i < addresses.len() ==> addresses[i] != other,
        other_creator != creator,
    ensures
        ({
            let c = r.created_all(creator, tokens, addresses, now, n);
            &&& c.state->0.token_count == r.state->0.token_count + n
            &&& c.tokens_by(creator) == r.tokens_by(creator) + Seq::new(
                n,
                |i: int| (r.state->0.token_count + 1 + i) as u32,
            )
            &&& c.tokens_by(other_creator) == r.tokens_by(other_creator)
            &&& c.tokens.contains_key(other) == r.tokens.contains_key(other)
            &&& c.tokens[other] == r.tokens[other]
        }),
    decreases n,
{
    let c = r.created_all(creator, tokens, addresses, now, n);
    let numbers = Seq::new(n, |i: int| (r.state->0.token_count + 1 + i) as u32);
    if n == 0 {
        assert(r.tokens_by(creator) + numbers =~= r.tokens_by(creator));
    } else {
        let m = (n - 1) as nat;
        let before = Seq::new(m, |i: int| (r.state->0.token_count + 1 + i) as u32);
        law_created_tokens_are_added(r, creator, tokens, addresses, now, m, other, other_creator);
        creation::lemma_created_all(r, creator, tokens, addresses, now, m);
        assert(numbers =~= before.push((r.state->0.token_count + n) as u32));
        assert(c.tokens_by(creator) =~= r.tokens_by(creator) + numbers);
    }
}

/// What issuing a new token adds to a balance.
pub proof fn lemma_issue_effect(address: u64, creator: u64, amount: int, token: u64, who: u64)
    requires
        address != token || who != creator || 0 <= amount <= i128::MAX,
    ensures
        action::net_change(state::issue(address, creator, amount), token, who) == (if address == token && who == creator {
            amount
        } else {
            0
        }),
{
    let calls = state::issue(address, creator, amount);
    reveal_with_fuel(action::net_change, 2);
    if amount > 0 {
        assert(calls.drop_last() =~= Seq::<Action>::empty());
    }
}

/// Issuing created tokens gives nothing of other tokens, and nothing to others.
pub proof fn lemma_issues_elsewhere(
    creator: u64,
    tokens: Seq<BatchTokenParams>,
    addresses: Seq<u64>,
    n: nat,
    token: u64,
    who: u64,
)
    requires
        n <= addresses.len(),
        who != creator || forall|i: int| 0 <= i < n ==> addresses[i] != token,
    ensures
        action::net_change(state::issues(creator, tokens, addresses, n), token, who) == 0,
    decreases n,
{
    if n > 0 {
        let m = (n - 1) as nat;
        let amount = tokens[m as int].initial_supply as int;
        lemma_issues_elsewhere(creator, tokens, addresses, m, token, who);
        lemma_issue_effect(addresses[m as int], creator, amount, token, who);
        action::lemma_net_change_concat(
            state::issues(creator, tokens, addresses, m),
            state::issue(addresses[m as int], creator, amount),
            token,
            who,
        );
    }
}

/// Of each created token its creator gets exactly the initial supply that was
/// asked for, which is what is recorded as issued, and nobody else anything.
pub proof fn law_initial_supply_is_issued(
    r: Records,
    creator: u64,
    tokens: Seq<BatchTokenParams>,
    addresses: Seq<u64>,
    now: u64,
    n: nat,
    i: int,
    who: u64,
)
    requires
        r.state is Some,
        r.state->0.token_count + n <= u32::MAX,
        n <= tokens.len() == addresses.len(),
        state::all_new(r, addresses),
        token::first_fault(tokens) is None,
        0 <= i < n,
    ensures
        action::net_change(state::issues(creator, tokens, addresses, n), addresses[i], who) == (if who == creator {
            tokens[i].initial_supply as int
        } else {
            0
        }),
        r.created_all(creator, tokens, addresses, now, n).tokens[addresses[i]].minted == tokens[i].initial_supply,
    decreases n,
{
    let m = (n - 1) as nat;
    let amount = tokens[m as int].initial_supply as int;
    token::lemma_no_fault(tokens, i);
    token::lemma_no_fault(tokens, m as int);
    law_created_tokens_are_found(r, creator, tokens, addresses, now, n, i);
    if i < m {
        assert(addresses[i] != addresses[m as int]);
        law_initial_supply_is_issued(r, creator, tokens, addresses, now, m, i, who);
    } else {
        assert forall|k: int| 0 <= k < m implies addresses[k] != addresses[i] by {}
        lemma_issues_elsewhere(creator, tokens, addresses, m, addresses[i], who);
    }
    lemma_issue_effect(addresses[m as int], creator, amount, addresses[i], who);
    action::lemma_net_change_concat(
        state::issues(creator, tokens, addresses, m),
        state::issue(addresses[m as int], creator, amount),
        addresses[i],
        who,
    );
}

/// While no split is in force, whoever else pays a fee adds exactly that fee
/// to the treasury.
pub proof fn law_fee_reaches_treasury(r: Records, from: u64, fee: i128)
    requires
        r.wf(),
        r.fee_split.dom().is_empty(),
        0 <= fee,
        from != r.state->0.treasury,
    ensures
        action::net_change(r.fee_payments(from, fee as int), r.state->0.fee_token, r.state->0.treasury) == fee,
        action::net_change(r.fee_payments(from, fee as int), r.state->0.fee_token, from) == -fee,
{
    let s = r.state->0;
    fees::law_fee_reaches_recipients(s.fee_token, from, s.treasury, fee, r.fee_split, s.treasury);
    fees::law_fee_reaches_recipients(s.fee_token, from, s.treasury, fee, r.fee_split, from);
    fees::law_no_split_pays_treasury(fee, s.treasury, r.fee_split, s.treasury);
    fees::law_no_split_pays_treasury(fee, s.treasury, r.fee_split, from);
}

/// Minting a token other than the fee token adds exactly the minted amount to
/// the recipient's balance, and nothing to anyone else's.
pub proof fn law_mint_reaches_recipient(
    r: Records,
    token: u64,
    admin: u64,
    to: u64,
    amount: i128,
    fee_payment: i128,
    who: u64,
)
    requires
        r.wf(),
        0 <= fee_payment,
        token != r.state->0.fee_token,
    ensures
        action::net_change(
            r.fee_payments(admin, fee_payment as int).push(Action::Mint { token, to, amount }),
            token,
            who,
        ) == (if who == to { amount as int } else { 0 }),
{
    let s = r.state->0;
    let payments = r.fee_payments(admin, fee_payment as int);
    let all = payments.push(Action::Mint { token, to, amount });
    assert(all.drop_last() =~= payments);
    fees::law_fee_moves_nothing_else(s.fee_token, admin, s.treasury, fee_payment, r.fee_split, token, who);
}

/// Fees that are not given stay as they are.
pub proof fn law_fees_change_alone(r: Records, base_fee: Option<i128>, metadata_fee: Option<i128>)
    requires
        r.state is Some,
    ensures
        base_fee is None ==> state::fees_set(r, base_fee, metadata_fee).state->0.base_fee == r.state->0.base_fee,
        metadata_fee is None ==> state::fees_set(r, base_fee, metadata_fee).state->0.metadata_fee
            == r.state->0.metadata_fee,
        state::fees_set(r, None, None) == r,
{
    assert(state::fees_set(r, None, None) =~= r);
}

} // verus!
