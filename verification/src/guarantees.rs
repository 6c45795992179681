//! What each call comes to, said of the fields of the records and of balances.

use vstd::prelude::*;

use crate::action;
use crate::action::Action;
use crate::creation;
use crate::error::Error;
use crate::factory::Factory;
use crate::fees;
use crate::laws;
use crate::setup::Seed;
use crate::state;
use crate::state::{FactoryState, Records};
use crate::token;
use crate::token::{BatchTokenParams, TokenInfo};

verus! {

// Fees

/// A recipient of the split in force, other than the treasury and the payer,
/// gets its parts of ten thousand of every fee, rounded down.
pub proof fn law_recipient_gets_its_parts(r: Records, from: u64, fee: int, who: u64)
    requires
        r.wf(),
        r.state is Some,
        0 <= fee <= i128::MAX,
        r.fee_split.contains_key(who),
        who != r.state->0.treasury,
        who != from,
    ensures
        action::net_change(r.fee_payments(from, fee), r.state->0.fee_token, who) == fee * r.fee_split[who] / 10_000,
{
    let s = r.state->0;
    fees::law_fee_reaches_recipients(s.fee_token, from, s.treasury, fee as i128, r.fee_split, who);
}

/// A payer other than the treasury loses the fee, less what it gets back as a
/// recipient of the split.
pub proof fn law_payer_loses_the_fee(r: Records, from: u64, fee: int)
    requires
        r.wf(),
        r.state is Some,
        0 <= fee <= i128::MAX,
        from != r.state->0.treasury,
    ensures
        action::net_change(r.fee_payments(from, fee), r.state->0.fee_token, from) == (if r.fee_split.contains_key(
            from,
        ) {
            fee * r.fee_split[from] / 10_000
        } else {
            0
        }) - fee,
{
    let s = r.state->0;
    fees::law_fee_reaches_recipients(s.fee_token, from, s.treasury, fee as i128, r.fee_split, from);
}

/// Whoever has no part in a fee keeps all balances, and everyone those in
/// other tokens.
pub proof fn law_fee_touches_nobody_else(r: Records, from: u64, fee: int, bystander: u64, token: u64, who: u64)
    requires
        r.wf(),
        r.state is Some,
        0 <= fee <= i128::MAX,
        bystander != from,
        bystander != r.state->0.treasury,
        !r.fee_split.contains_key(bystander),
        token != r.state->0.fee_token,
    ensures
        action::net_change(r.fee_payments(from, fee), r.state->0.fee_token, bystander) == 0,
        action::net_change(r.fee_payments(from, fee), token, who) == 0,
{
    let s = r.state->0;
    fees::law_fee_reaches_recipients(s.fee_token, from, s.treasury, fee as i128, r.fee_split, bystander);
    fees::law_fee_moves_nothing_else(s.fee_token, from, s.treasury, fee as i128, r.fee_split, token, who);
}

/// Of a fee the treasury gets what is left once every other recipient has had
/// its parts; where it pays itself, it loses the fee. `entries` lists the split
/// in force.
pub proof fn law_treasury_gets_what_is_left(r: Records, from: u64, fee: int, entries: Seq<(u64, u32)>)
    requires
        r.wf(),
        r.state is Some,
        0 <= fee <= i128::MAX,
        forall|i: int, j: int| 0 <= i < j < entries.len() ==> (#[trigger] entries[i]).0 < (#[trigger] entries[j]).0,
        forall|i: int|
            0 <= i < entries.len() ==> r.fee_split.contains_key((#[trigger] entries[i]).0)
                && r.fee_split[entries[i].0] == entries[i].1,
        forall|k: u64| #[trigger]
            r.fee_split.contains_key(k) ==> exists|i: int| 0 <= i < entries.len() && (#[trigger] entries[i]).0 == k,
    ensures
        action::net_change(r.fee_payments(from, fee), r.state->0.fee_token, r.state->0.treasury) == fee
            - entries.fold_left(
            0,
            |sum: int, e: (u64, u32)| sum + (if e.0 == r.state->0.treasury { 0 } else { fee * e.1 / 10_000 }),
        ) - (if from == r.state->0.treasury { fee } else { 0 }),
{
    let s = r.state->0;
    let f = fee as i128;
    fees::law_treasury_gets_the_rest(s.fee_token, from, s.treasury, f, r.fee_split, entries);
    let a = |sum: int, e: (u64, u32)| sum + (if e.0 == s.treasury { 0 } else { f * e.1 / 10_000 });
    let b = |sum: int, e: (u64, u32)| sum + (if e.0 == r.state->0.treasury { 0 } else { fee * e.1 / 10_000 });
    assert(a =~= b);
}

/// Every payment of a fee is a transfer of the fee token from the payer, of a
/// positive amount, to the treasury or to a recipient of the split in force.
pub proof fn law_payments_are_transfers(r: Records, from: u64, fee: int, i: int)
    requires
        r.wf(),
        r.state is Some,
        0 <= fee <= i128::MAX,
        0 <= i < r.fee_payments(from, fee).len(),
    ensures
        r.fee_payments(from, fee)[i] matches Action::Transfer { token, from: payer, to, amount } && token
            == r.state->0.fee_token && payer == from && amount > 0 && (to == r.state->0.treasury
            || r.fee_split.contains_key(to)),
{
    let s = r.state->0;
    fees::law_fee_is_transferred(s.fee_token, from, s.treasury, fee as i128, r.fee_split, i);
}

// Setting up

/// Records of a factory that has not been set up hold nothing.
pub proof fn law_blank_holds_nothing(index: u32, address: u64)
    ensures
        Records::blank().wf(),
        Records::blank().state is None,
        !Records::blank().infos.contains_key(index),
        !Records::blank().tokens.contains_key(address),
        !Records::blank().creator_tokens.contains_key(address),
        !Records::blank().fee_split.contains_key(address),
{
    crate::split::lemma_empty_split(Records::blank().fee_split);
}

/// A factory is set up just where it has not been before and no fee is
/// negative; it then has what it was given, is open, and has no tokens.
pub proof fn law_set_up_as_asked(
    r: Records,
    admin: u64,
    treasury: u64,
    fee_token: u64,
    base_fee: i128,
    metadata_fee: i128,
)
    ensures
        state::setup_refusal(r, base_fee as int, metadata_fee as int) is None <==> r.state is None && 0 <= base_fee
            && 0 <= metadata_fee,
        r.state is Some ==> state::setup_refusal(r, base_fee as int, metadata_fee as int) == Some(
            Error::AlreadyInitialized,
        ),
        r.state is None && (base_fee < 0 || metadata_fee < 0) ==> state::setup_refusal(
            r,
            base_fee as int,
            metadata_fee as int,
        ) == Some(Error::InvalidParameters),
        ({
            let s = state::first_state(admin, treasury, fee_token, base_fee, metadata_fee);
            &&& s.admin == admin
            &&& s.treasury == treasury
            &&& s.fee_token == fee_token
            &&& s.base_fee == base_fee
            &&& s.metadata_fee == metadata_fee
            &&& !s.paused
            &&& !s.locked
            &&& s.token_count == 0
            &&& r.with_state(s).state == Some(s)
            &&& r.with_state(s).infos == r.infos
            &&& r.with_state(s).tokens == r.tokens
            &&& r.with_state(s).creator_tokens == r.creator_tokens
            &&& r.with_state(s).fee_split == r.fee_split
        }),
{
}

/// The records are what the factory holds, nothing added and nothing left out.
pub proof fn law_records_are_the_factorys_own(f: Factory, creator: u64)
    ensures
        f@.state == f.state,
        f@.infos == f.infos@,
        f@.tokens == f.tokens@,
        f@.fee_split == f.fee_split@,
        f@.creator_tokens.contains_key(creator) == f.creator_tokens@.contains_key(creator),
        f.creator_tokens@.contains_key(creator) ==> f@.creator_tokens[creator] == f.creator_tokens@[creator]@,
{
}

/// A creator's tokens are those that are listed under it, or none.
pub proof fn law_listed_tokens(r: Records, creator: u64)
    ensures
        r.creator_tokens.contains_key(creator) ==> r.tokens_by(creator) == r.creator_tokens[creator],
        !r.creator_tokens.contains_key(creator) ==> r.tokens_by(creator).len() == 0,
{
}

/// In records that hang together every known token has a number that has been
/// given out and a description under it, shares neither with another token,
/// and has been issued no further than its cap; no fee is negative.
pub proof fn law_records_hang_together(r: Records, token: u64, other: u64)
    requires
        r.wf(),
        r.tokens.contains_key(token),
    ensures
        r.state is Some,
        0 <= r.state->0.base_fee,
        0 <= r.state->0.metadata_fee,
        1 <= r.tokens[token].index <= r.state->0.token_count,
        r.infos.contains_key(r.tokens[token].index),
        r.tokens.contains_key(other) && token != other ==> r.tokens[token].index != r.tokens[other].index,
        0 <= r.tokens[token].minted,
        ({
            let cap = r.infos[r.tokens[token].index].max_supply;
            r.tokens[token].minted > 0 && cap is Some ==> r.tokens[token].minted <= cap->0
        }),
{
}

// Minting

/// Whoever is not the owner of a known token cannot mint it.
pub proof fn law_only_the_owner_mints(r: Records, token: u64, caller: u64, amount: int, fee_payment: int)
    requires
        r.state is Some,
        !r.state->0.locked,
        !r.state->0.paused,
        0 <= fee_payment,
        r.tokens.contains_key(token),
        caller != r.tokens[token].owner,
    ensures
        state::mint_refusal(r, token, caller, amount, fee_payment) == Some(Error::Unauthorized),
{
}

/// A mint is granted just to the owner of a known token, on an open factory,
/// for a positive amount with which the token stays within its cap and can
/// still be counted, and a fee that is not negative.
pub proof fn law_when_minting_is_granted(r: Records, token: u64, caller: u64, amount: int, fee_payment: int)
    requires
        r.state is Some,
    ensures
        state::mint_refusal(r, token, caller, amount, fee_payment) is None <==> {
            let issued = r.tokens[token].minted + amount;
            let cap = r.infos[r.tokens[token].index].max_supply;
            &&& !r.state->0.locked
            &&& !r.state->0.paused
            &&& 0 <= fee_payment
            &&& r.tokens.contains_key(token)
            &&& r.tokens[token].owner == caller
            &&& 0 < amount
            &&& cap is Some ==> issued <= cap->0
            &&& issued <= i128::MAX
        },
{
}

/// Each shortcoming of a mint is told by its own error.
pub proof fn law_refused_mints_are_told(r: Records, token: u64, caller: u64, amount: int, fee_payment: int)
    requires
        r.state is Some,
    ensures
        ({
            let refusal = state::mint_refusal(r, token, caller, amount, fee_payment);
            let issued = r.tokens[token].minted + amount;
            let cap = r.infos[r.tokens[token].index].max_supply;
            &&& r.state->0.locked ==> refusal == Some(Error::Reentrancy)
            &&& !r.state->0.locked && r.state->0.paused ==> refusal == Some(Error::ContractPaused)
            &&& !r.state->0.locked && !r.state->0.paused ==> {
                &&& fee_payment < 0 ==> refusal == Some(Error::InsufficientFee)
                &&& 0 <= fee_payment && !r.tokens.contains_key(token) ==> refusal == Some(Error::TokenNotFound)
                &&& 0 <= fee_payment && r.tokens.contains_key(token) && r.tokens[token].owner == caller ==> {
                    &&& amount <= 0 ==> refusal == Some(Error::InvalidParameters)
                    &&& 0 < amount && cap is Some && issued > cap->0 ==> refusal == Some(Error::MaxSupplyExceeded)
                    &&& 0 < amount && cap is None && issued > i128::MAX ==> refusal == Some(Error::ArithmeticOverflow)
                }
            }
        }),
{
}

/// A granted mint adds the amount to what the token has issued, and changes
/// nothing else on record.
pub proof fn law_mint_is_recorded(r: Records, token: u64, amount: int, other: u64)
    requires
        r.tokens.contains_key(token),
        i128::MIN <= r.tokens[token].minted + amount <= i128::MAX,
        other != token,
    ensures
        ({
            let n = state::minted(r, token, amount);
            &&& n.tokens.contains_key(token)
            &&& n.tokens[token].minted == r.tokens[token].minted + amount
            &&& n.tokens[token].index == r.tokens[token].index
            &&& n.tokens[token].owner == r.tokens[token].owner
            &&& n.tokens[token].metadata == r.tokens[token].metadata
            &&& n.tokens.contains_key(other) == r.tokens.contains_key(other)
            &&& n.tokens[other] == r.tokens[other]
            &&& n.state == r.state
            &&& n.infos == r.infos
            &&& n.creator_tokens == r.creator_tokens
            &&& n.fee_split == r.fee_split
        }),
{
}

/// What a mint moves: everyone gets what the payment of the fee comes to, and
/// the recipient the minted amount on top.
pub proof fn law_mint_moves_fee_and_amount(
    r: Records,
    token: u64,
    admin: u64,
    to: u64,
    amount: i128,
    fee_payment: i128,
    t: u64,
    who: u64,
)
    ensures
        action::net_change(
            r.fee_payments(admin, fee_payment as int).push(Action::Mint { token, to, amount }),
            t,
            who,
        ) == action::net_change(r.fee_payments(admin, fee_payment as int), t, who) + (if t == token && who == to {
            amount as int
        } else {
            0
        }),
{
    action::law_calls_add_up(
        r.fee_payments(admin, fee_payment as int),
        Action::Mint { token, to, amount },
        t,
        who,
    );
}

// Metadata

/// Whoever is not the owner of a known token cannot set its metadata,
/// whatever has been issued of it.
pub proof fn law_only_the_owner_sets_metadata(r: Records, token: u64, caller: u64, fee_payment: int)
    requires
        r.state is Some,
        !r.state->0.locked,
        !r.state->0.paused,
        r.state->0.metadata_fee <= fee_payment,
        r.tokens.contains_key(token),
        caller != r.tokens[token].owner,
    ensures
        state::metadata_refusal(r, token, caller, fee_payment) == Some(Error::Unauthorized),
{
}

/// Setting metadata is granted just to the owner of a known token without
/// metadata, on an open factory, for at least the metadata fee.
pub proof fn law_when_metadata_is_granted(r: Records, token: u64, caller: u64, fee_payment: int)
    requires
        r.state is Some,
    ensures
        state::metadata_refusal(r, token, caller, fee_payment) is None <==> {
            &&& !r.state->0.locked
            &&& !r.state->0.paused
            &&& r.state->0.metadata_fee <= fee_payment
            &&& r.tokens.contains_key(token)
            &&& r.tokens[token].owner == caller
            &&& r.tokens[token].metadata is None
        },
{
}

/// Each shortcoming of setting metadata is told by its own error.
pub proof fn law_refused_metadata_is_told(r: Records, token: u64, caller: u64, fee_payment: int)
    requires
        r.state is Some,
    ensures
        ({
            let refusal = state::metadata_refusal(r, token, caller, fee_payment);
            &&& r.state->0.locked ==> refusal == Some(Error::Reentrancy)
            &&& !r.state->0.locked && r.state->0.paused ==> refusal == Some(Error::ContractPaused)
            &&& !r.state->0.locked && !r.state->0.paused ==> {
                &&& fee_payment < r.state->0.metadata_fee ==> refusal == Some(Error::InsufficientFee)
                &&& r.state->0.metadata_fee <= fee_payment ==> {
                    &&& !r.tokens.contains_key(token) ==> refusal == Some(Error::TokenNotFound)
                    &&& r.tokens.contains_key(token) && r.tokens[token].owner == caller
                        && r.tokens[token].metadata is Some ==> refusal == Some(Error::MetadataAlreadySet)
                }
            }
        }),
{
}

/// Metadata that has been set is found as it was given, and nothing else on
/// record has changed.
pub proof fn law_metadata_is_recorded(r: Records, token: u64, uri: String, other: u64)
    requires
        r.tokens.contains_key(token),
        other != token,
    ensures
        ({
            let n = state::metadata_set(r, token, uri);
            &&& n.tokens.contains_key(token)
            &&& n.tokens[token].metadata == Some(uri)
            &&& n.tokens[token].index == r.tokens[token].index
            &&& n.tokens[token].owner == r.tokens[token].owner
            &&& n.tokens[token].minted == r.tokens[token].minted
            &&& n.tokens.contains_key(other) == r.tokens.contains_key(other)
            &&& n.tokens[other] == r.tokens[other]
            &&& n.state == r.state
            &&& n.infos == r.infos
            &&& n.creator_tokens == r.creator_tokens
            &&& n.fee_split == r.fee_split
        }),
{
}

// Burning

/// A burn is granted just for a positive amount that the holder has, of a
/// known token whose burning is switched on.
pub proof fn law_when_burning_is_granted(r: Records, token: u64, amount: int, balance: int)
    ensures
        state::burn_refusal(r, token, amount, balance) is None <==> {
            &&& 0 < amount <= balance
            &&& r.tokens.contains_key(token)
            &&& r.infos[r.tokens[token].index].burn_enabled
        },
{
}

/// More than the holder has cannot be burnt, of whatever token, and each
/// other shortcoming of a burn is told by its own error too.
pub proof fn law_refused_burns_are_told(r: Records, token: u64, amount: int, balance: int)
    ensures
        amount <= 0 ==> state::burn_refusal(r, token, amount, balance) == Some(Error::InvalidBurnAmount),
        0 < amount && balance < amount ==> state::burn_refusal(r, token, amount, balance) == Some(
            Error::BurnAmountExceedsBalance,
        ),
        0 < amount <= balance && !r.tokens.contains_key(token) ==> state::burn_refusal(r, token, amount, balance)
            == Some(Error::TokenNotFound),
        0 < amount <= balance && r.tokens.contains_key(token) && !r.infos[r.tokens[token].index].burn_enabled
            ==> state::burn_refusal(r, token, amount, balance) == Some(Error::BurnNotEnabled),
{
}

/// Nobody is left with less than nothing: where a burn is granted, what it
/// takes leaves the holder a balance, smaller than before.
pub proof fn law_burning_takes_what_is_there(r: Records, token: u64, from: u64, amount: i128, balance: i128)
    requires
        state::burn_refusal(r, token, amount as int, balance as int) is None,
    ensures
        0 <= balance + action::change(Action::Burn { token, from, amount }, token, from) < balance,
{
}

/// Burning is switched just by the owner of a known token.
pub proof fn law_only_the_owner_switches(r: Records, token: u64, caller: u64)
    ensures
        state::switch_refusal(r, token, caller) is None <==> r.tokens.contains_key(token) && r.tokens[token].owner
            == caller,
        !r.tokens.contains_key(token) ==> state::switch_refusal(r, token, caller) == Some(Error::TokenNotFound),
        r.tokens.contains_key(token) && r.tokens[token].owner != caller ==> state::switch_refusal(r, token, caller)
            == Some(Error::Unauthorized),
{
}

/// A switch is recorded in the token's description, and nothing else changes.
pub proof fn law_switch_is_recorded(r: Records, token: u64, enabled: bool, other: u32)
    requires
        r.tokens.contains_key(token),
        r.infos.contains_key(r.tokens[token].index),
        other != r.tokens[token].index,
    ensures
        ({
            let n = state::burn_switched(r, token, enabled);
            let index = r.tokens[token].index;
            &&& n.infos.contains_key(index)
            &&& n.infos[index].burn_enabled == enabled
            &&& n.infos[index].name == r.infos[index].name
            &&& n.infos[index].symbol == r.infos[index].symbol
            &&& n.infos[index].decimals == r.infos[index].decimals
            &&& n.infos[index].creator == r.infos[index].creator
            &&& n.infos[index].created_at == r.infos[index].created_at
            &&& n.infos[index].max_supply == r.infos[index].max_supply
            &&& n.infos.contains_key(other) == r.infos.contains_key(other)
            &&& n.infos[other] == r.infos[other]
            &&& n.state == r.state
            &&& n.tokens == r.tokens
            &&& n.creator_tokens == r.creator_tokens
            &&& n.fee_split == r.fee_split
        }),
{
}

// Settings

/// Settings are changed just by the admin: the office passes to someone else
/// only, fees are not negative, and whatever else is asked is granted.
pub proof fn law_when_settings_change(
    r: Records,
    caller: u64,
    new_admin: u64,
    base_fee: Option<i128>,
    metadata_fee: Option<i128>,
)
    requires
        r.state is Some,
    ensures
        ({
            let negative = (base_fee is Some && base_fee->0 < 0) || (metadata_fee is Some && metadata_fee->0 < 0);
            let is_admin = caller == r.state->0.admin;
            &&& state::admin_refusal(r, caller) is None <==> is_admin
            &&& state::handover_refusal(r, caller, new_admin) is None <==> is_admin && new_admin != caller
            &&& is_admin && new_admin == caller ==> state::handover_refusal(r, caller, new_admin) == Some(
                Error::InvalidParameters,
            )
            &&& state::fees_refusal(r, caller, base_fee, metadata_fee) is None <==> is_admin && !negative
            &&& is_admin && negative ==> state::fees_refusal(r, caller, base_fee, metadata_fee) == Some(
                Error::InvalidParameters,
            )
        }),
{
}

/// Whoever is not the admin is refused every setting as not authorized.
pub proof fn law_strangers_change_nothing(
    r: Records,
    caller: u64,
    new_admin: u64,
    base_fee: Option<i128>,
    metadata_fee: Option<i128>,
    fee_split: Map<u64, u32>,
)
    requires
        r.state is Some,
        caller != r.state->0.admin,
    ensures
        state::admin_refusal(r, caller) == Some(Error::Unauthorized),
        state::handover_refusal(r, caller, new_admin) == Some(Error::Unauthorized),
        state::fees_refusal(r, caller, base_fee, metadata_fee) == Some(Error::Unauthorized),
        state::split_refusal(r, caller, fee_split) == Some(Error::Unauthorized),
{
}

/// The admin puts a split in force just where it has no entries or their parts
/// add up to ten thousand. `entries` lists the split.
pub proof fn law_when_a_split_is_granted(r: Records, fee_split: Map<u64, u32>, entries: Seq<(u64, u32)>)
    requires
        r.state is Some,
        forall|i: int, j: int| 0 <= i < j < entries.len() ==> (#[trigger] entries[i]).0 < (#[trigger] entries[j]).0,
        forall|i: int|
            0 <= i < entries.len() ==> fee_split.contains_key((#[trigger] entries[i]).0) && fee_split[entries[i].0]
                == entries[i].1,
        forall|k: u64| #[trigger]
            fee_split.contains_key(k) ==> exists|i: int| 0 <= i < entries.len() && (#[trigger] entries[i]).0 == k,
    ensures
        state::split_refusal(r, r.state->0.admin, fee_split) == (if entries.len() == 0 || entries.fold_left(
            0,
            |sum: int, e: (u64, u32)| sum + e.1,
        ) == 10_000 {
            None
        } else {
            Some(Error::InvalidFeeSplit)
        }),
{
    crate::split::law_parts_make_up_the_whole(fee_split, entries);
}

/// Changing a setting changes that setting alone.
pub proof fn law_settings_change_alone(
    r: Records,
    new_admin: u64,
    flag: bool,
    base_fee: Option<i128>,
    metadata_fee: Option<i128>,
)
    requires
        r.state is Some,
    ensures
        state::handed_over(r, new_admin) == (Records {
            state: Some(FactoryState { admin: new_admin, ..r.state->0 }),
            ..r
        }),
        state::pause_set(r, flag) == (Records { state: Some(FactoryState { paused: flag, ..r.state->0 }), ..r }),
        r.with_lock(flag) == (Records { state: Some(FactoryState { locked: flag, ..r.state->0 }), ..r }),
        base_fee is Some && metadata_fee is Some ==> state::fees_set(r, base_fee, metadata_fee) == (Records {
            state: Some(FactoryState { base_fee: base_fee->0, metadata_fee: metadata_fee->0, ..r.state->0 }),
            ..r
        }),
        base_fee is Some && metadata_fee is None ==> state::fees_set(r, base_fee, metadata_fee) == (Records {
            state: Some(FactoryState { base_fee: base_fee->0, ..r.state->0 }),
            ..r
        }),
        base_fee is None && metadata_fee is Some ==> state::fees_set(r, base_fee, metadata_fee) == (Records {
            state: Some(FactoryState { metadata_fee: metadata_fee->0, ..r.state->0 }),
            ..r
        }),
        base_fee is None && metadata_fee is None ==> state::fees_set(r, base_fee, metadata_fee) == r,
{
    laws::law_fees_change_alone(r, base_fee, metadata_fee);
}

// Creating

/// An order is accepted just where the factory is open, at least one token is
/// asked for, each of them may be created, the base fee for each is offered,
/// and there are numbers left for all.
pub proof fn law_when_an_order_is_accepted(r: Records, tokens: Seq<BatchTokenParams>, fee_payment: i128)
    requires
        r.state is Some,
    ensures
        state::creation_refusal(r, tokens, fee_payment as int) is None <==> {
            &&& !r.state->0.locked
            &&& !r.state->0.paused
            &&& 0 < tokens.len()
            &&& r.state->0.base_fee * tokens.len() <= fee_payment
            &&& r.state->0.token_count + tokens.len() <= u32::MAX
            &&& forall|i: int|
                0 <= i < tokens.len() ==> {
                    &&& 0 < (#[trigger] tokens[i]).name@.len()
                    &&& 0 < tokens[i].symbol@.len()
                    &&& tokens[i].decimals <= 18
                    &&& tokens[i].initial_supply <= i128::MAX
                    &&& tokens[i].max_supply is Some ==> tokens[i].initial_supply <= tokens[i].max_supply->0
                }
        },
{
    if token::first_fault(tokens) is None {
        assert forall|i: int| 0 <= i < tokens.len() implies token::token_fault(#[trigger] tokens[i]) is None by {
            token::lemma_no_fault(tokens, i);
        }
    } else {
        if forall|i: int| 0 <= i < tokens.len() ==> token::token_fault(#[trigger] tokens[i]) is None {
            token::lemma_all_good(tokens);
        }
        let i = choose|i: int| 0 <= i < tokens.len() && token::token_fault(#[trigger] tokens[i]) is Some;
        token::law_what_a_token_may_be(tokens[i]);
    }
}

/// Each shortcoming of an order is told by its own error.
pub proof fn law_refused_orders_are_told(r: Records, tokens: Seq<BatchTokenParams>, fee_payment: i128)
    requires
        r.state is Some,
    ensures
        ({
            let refusal = state::creation_refusal(r, tokens, fee_payment as int);
            let fee = r.state->0.base_fee * tokens.len();
            &&& r.state->0.locked ==> refusal == Some(Error::Reentrancy)
            &&& !r.state->0.locked && r.state->0.paused ==> refusal == Some(Error::ContractPaused)
            &&& !r.state->0.locked && !r.state->0.paused ==> {
                &&& tokens.len() == 0 ==> refusal == Some(Error::InvalidParameters)
                &&& 0 < tokens.len() && fee > i128::MAX ==> refusal == Some(Error::ArithmeticOverflow)
                &&& 0 < tokens.len() && fee_payment < fee <= i128::MAX ==> refusal == Some(Error::InsufficientFee)
            }
        }),
{
}

/// In an order that is paid, the first token that cannot be created is told
/// by its error; where there is none, it can be refused for want of numbers only.
pub proof fn law_faulty_orders_are_told(r: Records, tokens: Seq<BatchTokenParams>, fee_payment: i128, i: int)
    requires
        r.state is Some,
        !r.state->0.locked,
        !r.state->0.paused,
        r.state->0.base_fee * tokens.len() <= fee_payment,
        0 <= i < tokens.len(),
        forall|j: int| 0 <= j < i ==> token::token_fault(#[trigger] tokens[j]) is None,
    ensures
        token::token_fault(tokens[i]) is Some ==> state::creation_refusal(r, tokens, fee_payment as int)
            == token::token_fault(tokens[i]),
        token::token_fault(tokens[i]) is None && i == tokens.len() - 1 && r.state->0.token_count + tokens.len()
            > u32::MAX ==> state::creation_refusal(r, tokens, fee_payment as int) == Some(Error::ArithmeticOverflow),
{
    if token::token_fault(tokens[i]) is Some {
        token::law_first_fault_is_told(tokens, i);
    } else if i == tokens.len() - 1 {
        token::lemma_all_good(tokens);
    }
}

/// Deployed tokens are entered just where there is one new address for each,
/// and numbers and room in the creator's list are left for all.
pub proof fn law_when_deployed_tokens_are_entered(r: Records, creator: u64, count: nat, addresses: Seq<u64>)
    requires
        r.state is Some,
    ensures
        ({
            let refusal = state::entry_refusal(r, creator, count, addresses);
            let listed = if r.creator_tokens.contains_key(creator) { r.creator_tokens[creator].len() } else { 0 };
            let fit = addresses.len() == count && (forall|i: int|
                0 <= i < addresses.len() ==> !r.tokens.contains_key(#[trigger] addresses[i])) && (forall|
                i: int,
                j: int,
            |
                0 <= i < j < addresses.len() ==> addresses[i] != addresses[j]);
            let room = r.state->0.token_count + count <= u32::MAX && listed + count <= u32::MAX;
            &&& refusal is None <==> fit && room
            &&& !fit ==> refusal == Some(Error::InvalidParameters)
            &&& fit && !room ==> refusal == Some(Error::ArithmeticOverflow)
        }),
{
}

/// Entering a token gives it the next number, files it under its address and
/// that number, and leaves everything else on record as it was.
pub proof fn law_entering_adds_one(
    r: Records,
    address: u64,
    info: TokenInfo,
    minted: i128,
    other: u64,
    other_index: u32,
)
    requires
        r.state is Some,
        r.state->0.token_count < u32::MAX,
        other != address,
        other_index != r.state->0.token_count + 1,
    ensures
        ({
            let n = r.entered(address, info, minted as int);
            let index = (r.state->0.token_count + 1) as u32;
            &&& n.state == Some(FactoryState { token_count: index, ..r.state->0 })
            &&& n.tokens.contains_key(address)
            &&& n.tokens[address].index == index
            &&& n.tokens[address].owner == info.creator
            &&& n.tokens[address].minted == minted
            &&& n.tokens[address].metadata is None
            &&& n.infos.contains_key(index)
            &&& n.infos[index] == info
            &&& n.tokens.contains_key(other) == r.tokens.contains_key(other)
            &&& n.tokens[other] == r.tokens[other]
            &&& n.infos.contains_key(other_index) == r.infos.contains_key(other_index)
            &&& n.infos[other_index] == r.infos[other_index]
            &&& n.creator_tokens == r.creator_tokens
            &&& n.fee_split == r.fee_split
        }),
{
}

/// Once an order has been entered, each token is described as it was asked to
/// be, belongs to its creator, can be burnt, has no metadata, and has issued
/// its initial supply.
pub proof fn law_created_tokens_are_as_asked(
    r: Records,
    creator: u64,
    tokens: Seq<BatchTokenParams>,
    addresses: Seq<u64>,
    now: u64,
    n: nat,
    i: int,
)
    requires
        r.state is Some,
        r.state->0.token_count + n <= u32::MAX,
        n <= tokens.len() == addresses.len(),
        forall|a: int| 0 <= a < addresses.len() ==> !r.tokens.contains_key(#[trigger] addresses[a]),
        forall|a: int, b: int| 0 <= a < b < addresses.len() ==> addresses[a] != addresses[b],
        0 <= i < n,
        tokens[i].initial_supply <= i128::MAX,
    ensures
        ({
            let c = r.created_all(creator, tokens, addresses, now, n);
            let index = (r.state->0.token_count + 1 + i) as u32;
            &&& c.infos.contains_key(index)
            &&& c.infos[index].name == tokens[i].name
            &&& c.infos[index].symbol == tokens[i].symbol
            &&& c.infos[index].decimals == tokens[i].decimals
            &&& c.infos[index].max_supply == tokens[i].max_supply
            &&& c.infos[index].creator == creator
            &&& c.infos[index].created_at == now
            &&& c.infos[index].burn_enabled
            &&& c.tokens.contains_key(addresses[i])
            &&& c.tokens[addresses[i]].index == index
            &&& c.tokens[addresses[i]].owner == creator
            &&& c.tokens[addresses[i]].minted == tokens[i].initial_supply
            &&& c.tokens[addresses[i]].metadata is None
        }),
{
    laws::law_created_tokens_are_found(r, creator, tokens, addresses, now, n, i);
}

/// Entering an order leaves every earlier token, every other creator's list
/// and all settings but the count as they were.
pub proof fn law_creation_leaves_the_rest(
    r: Records,
    creator: u64,
    tokens: Seq<BatchTokenParams>,
    addresses: Seq<u64>,
    now: u64,
    n: nat,
    other: u64,
    other_index: u32,
    other_creator: u64,
)
    requires
        r.state is Some,
        r.state->0.token_count + n <= u32::MAX,
        n <= tokens.len() == addresses.len(),
        forall|a: int| 0 <= a < addresses.len() ==> addresses[a] != other,
        other_index <= r.state->0.token_count || r.state->0.token_count + n < other_index,
        other_creator != creator,
    ensures
        ({
            let c = r.created_all(creator, tokens, addresses, now, n);
            &&& c.state == Some(FactoryState { token_count: (r.state->0.token_count + n) as u32, ..r.state->0 })
            &&& c.tokens.contains_key(other) == r.tokens.contains_key(other)
            &&& c.tokens[other] == r.tokens[other]
            &&& c.infos.contains_key(other_index) == r.infos.contains_key(other_index)
            &&& c.infos[other_index] == r.infos[other_index]
            &&& c.creator_tokens.contains_key(other_creator) == r.creator_tokens.contains_key(other_creator)
            &&& c.creator_tokens[other_creator] == r.creator_tokens[other_creator]
            &&& c.fee_split == r.fee_split
        }),
    decreases n,
{
    if n > 0 {
        let m = (n - 1) as nat;
        law_creation_leaves_the_rest(
            r,
            creator,
            tokens,
            addresses,
            now,
            m,
            other,
            other_index,
            other_creator,
        );
        creation::lemma_created_all(r, creator, tokens, addresses, now, m);
    }
}

/// The numbers of created tokens are listed under their creator, behind those
/// that were listed before, in the order of the order.
pub proof fn law_created_tokens_are_listed(
    r: Records,
    creator: u64,
    tokens: Seq<BatchTokenParams>,
    addresses: Seq<u64>,
    now: u64,
    n: nat,
    i: int,
)
    requires
        r.state is Some,
        r.state->0.token_count + n <= u32::MAX,
        n <= tokens.len() == addresses.len(),
        0 < n,
    ensures
        ({
            let c = r.created_all(creator, tokens, addresses, now, n);
            let before = if r.creator_tokens.contains_key(creator) {
                r.creator_tokens[creator]
            } else {
                Seq::empty()
            };
            &&& c.creator_tokens.contains_key(creator)
            &&& c.creator_tokens[creator].len() == before.len() + n
            &&& 0 <= i < before.len() ==> c.creator_tokens[creator][i] == before[i]
            &&& 0 <= i < n ==> c.creator_tokens[creator][before.len() + i] == r.state->0.token_count + 1 + i
        }),
    decreases n,
{
    let m = (n - 1) as nat;
    creation::lemma_created_all(r, creator, tokens, addresses, now, m);
    if m > 0 {
        law_created_tokens_are_listed(r, creator, tokens, addresses, now, m, i);
    }
}

/// The cap that was asked for holds from the start: once an order has been
/// entered, its creator can mint a token up to the cap and no further.
pub proof fn law_asked_cap_holds(
    r: Records,
    creator: u64,
    tokens: Seq<BatchTokenParams>,
    addresses: Seq<u64>,
    now: u64,
    n: nat,
    i: int,
    cap: i128,
    amount: int,
    fee_payment: int,
)
    requires
        r.state is Some,
        !r.state->0.locked,
        !r.state->0.paused,
        r.state->0.token_count + n <= u32::MAX,
        n <= tokens.len() == addresses.len(),
        forall|a: int| 0 <= a < addresses.len() ==> !r.tokens.contains_key(#[trigger] addresses[a]),
        forall|a: int, b: int| 0 <= a < b < addresses.len() ==> addresses[a] != addresses[b],
        0 <= i < n,
        tokens[i].initial_supply <= i128::MAX,
        tokens[i].max_supply == Some(cap),
        0 < amount,
        0 <= fee_payment,
    ensures
        state::mint_refusal(
            r.created_all(creator, tokens, addresses, now, n),
            addresses[i],
            creator,
            amount,
            fee_payment,
        ) == (if tokens[i].initial_supply + amount > cap { Some(Error::MaxSupplyExceeded) } else { None }),
{
    law_created_tokens_are_as_asked(r, creator, tokens, addresses, now, n, i);
    creation::lemma_created_all(r, creator, tokens, addresses, now, n);
}

/// Of each created token, issuing gives the creator the initial supply that
/// was asked for, and nobody else anything; no other token is issued.
pub proof fn law_asked_supply_is_issued(
    creator: u64,
    tokens: Seq<BatchTokenParams>,
    addresses: Seq<u64>,
    n: nat,
    i: int,
    who: u64,
    other: u64,
)
    requires
        n <= tokens.len() == addresses.len(),
        forall|a: int, b: int| 0 <= a < b < addresses.len() ==> addresses[a] != addresses[b],
        forall|a: int| 0 <= a < tokens.len() ==> (#[trigger] tokens[a]).initial_supply <= i128::MAX,
        forall|a: int| 0 <= a < addresses.len() ==> addresses[a] != other,
        0 <= i < n,
    ensures
        action::net_change(state::issues(creator, tokens, addresses, n), addresses[i], who) == (if who == creator {
            tokens[i].initial_supply as int
        } else {
            0
        }),
        action::net_change(state::issues(creator, tokens, addresses, n), other, who) == 0,
    decreases n,
{
    let m = (n - 1) as nat;
    let amount = tokens[m as int].initial_supply as int;
    if i < m {
        assert(addresses[i] != addresses[m as int]);
        law_asked_supply_is_issued(creator, tokens, addresses, m, i, who, other);
    } else {
        assert forall|k: int| 0 <= k < m implies addresses[k] != addresses[i] by {}
        laws::lemma_issues_elsewhere(creator, tokens, addresses, m, addresses[i], who);
    }
    laws::lemma_issues_elsewhere(creator, tokens, addresses, n, other, who);
    laws::lemma_issue_effect(addresses[m as int], creator, amount, addresses[i], who);
    action::lemma_net_change_concat(
        state::issues(creator, tokens, addresses, m),
        state::issue(addresses[m as int], creator, amount),
        addresses[i],
        who,
    );
}

/// A token that is entered without an order gets the next number, belongs to
/// its creator, and is described as asked; nothing else on record changes.
pub proof fn law_seed_is_as_asked(seed: Seed, before: Records, after: Records, other: u64, other_index: u32)
    requires
        before.state is Some,
        before.state->0.token_count < u32::MAX,
        seed.leads(before, after),
        other != seed.token,
        other_index != before.state->0.token_count + 1,
    ensures
        ({
            let index = (before.state->0.token_count + 1) as u32;
            &&& after.state == Some(FactoryState { token_count: index, ..before.state->0 })
            &&& after.tokens.contains_key(seed.token)
            &&& after.tokens[seed.token].index == index
            &&& after.tokens[seed.token].owner == seed.creator
            &&& after.tokens[seed.token].minted == 0
            &&& after.tokens[seed.token].metadata is None
            &&& after.infos.contains_key(index)
            &&& after.infos[index].name@ == "T"@
            &&& after.infos[index].symbol@ == "T"@
            &&& after.infos[index].decimals == 7
            &&& after.infos[index].creator == seed.creator
            &&& after.infos[index].created_at == 0
            &&& after.infos[index].burn_enabled == seed.burn_enabled
            &&& after.infos[index].max_supply == seed.max_supply
            &&& after.tokens.contains_key(other) == before.tokens.contains_key(other)
            &&& after.tokens[other] == before.tokens[other]
            &&& after.infos.contains_key(other_index) == before.infos.contains_key(other_index)
            &&& after.infos[other_index] == before.infos[other_index]
            &&& after.creator_tokens == before.creator_tokens
            &&& after.fee_split == before.fee_split
        }),
{
}

} // verus!
