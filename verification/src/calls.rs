//! What a caller can tell of each call from what went in and what came out.

use vstd::prelude::*;

use crate::action;
use crate::action::Action;
use crate::creation::{Created, Creation};
use crate::error::Error;
use crate::factory;
use crate::factory::{Factory, TtlExtension};
use crate::fees;
use crate::guarantees;
use crate::setup;
use crate::setup::Setup;
use crate::split;
use crate::split::FeeSplit;
use crate::state;
use crate::state::{FactoryState, Records};
use crate::token;
use crate::token::{BatchTokenParams, TokenInfo};

verus! {

/// Setting up succeeds just once and with fees that are not negative; the
/// factory then has what it was given, and its storage is ordered to live on.
pub proof fn law_initialize(
    f: &mut Factory,
    admin: u64,
    treasury: u64,
    fee_token: u64,
    base_fee: i128,
    metadata_fee: i128,
    out: Result<TtlExtension, Error>,
)
    requires
        call_ensures(Factory::initialize, (f, admin, treasury, fee_token, base_fee, metadata_fee), out),
    ensures
        out is Ok <==> old(f)@.state is None && 0 <= base_fee && 0 <= metadata_fee,
        out is Err ==> final(f)@ == old(f)@,
        out is Err ==> out->Err_0 == (if old(f)@.state is Some {
            Error::AlreadyInitialized
        } else {
            Error::InvalidParameters
        }),
        out is Ok ==> {
            &&& final(f)@.state is Some
            &&& final(f)@.state->0.admin == admin
            &&& final(f)@.state->0.treasury == treasury
            &&& final(f)@.state->0.fee_token == fee_token
            &&& final(f)@.state->0.base_fee == base_fee
            &&& final(f)@.state->0.metadata_fee == metadata_fee
            &&& !final(f)@.state->0.paused
            &&& !final(f)@.state->0.locked
            &&& final(f)@.state->0.token_count == 0
            &&& final(f)@ == (Records { state: final(f)@.state, ..old(f)@ })
            &&& factory::MIN_TTL <= out->Ok_0.threshold <= out->Ok_0.extend_to
        },
{
}

/// A mint is granted just to the owner of a known token, on an open factory,
/// for a positive amount within the cap. It then adds to what the token has
/// issued and to nothing else on record, and its calls pay the fee and issue
/// the amount. A refused mint changes nothing.
pub proof fn law_mint_tokens(
    f: &mut Factory,
    token: u64,
    admin: u64,
    to: u64,
    amount: i128,
    fee_payment: i128,
    out: Result<Vec<Action>, Error>,
)
    requires
        call_ensures(Factory::mint_tokens, (f, token, admin, to, amount, fee_payment), out),
        old(f)@.wf(),
        old(f)@.state is Some,
    ensures
        ({
            let r = old(f)@;
            let n = final(f)@;
            let t = r.tokens[token];
            let cap = r.infos[t.index].max_supply;
            &&& out is Ok <==> {
                &&& !r.state->0.locked
                &&& !r.state->0.paused
                &&& 0 <= fee_payment
                &&& r.tokens.contains_key(token)
                &&& t.owner == admin
                &&& 0 < amount
                &&& cap is Some ==> t.minted + amount <= cap->0
                &&& t.minted + amount <= i128::MAX
            }
            &&& out is Err ==> n == r
            &&& out is Err ==> state::mint_refusal(r, token, admin, amount as int, fee_payment as int) == Some(
                out->Err_0,
            )
            &&& out is Ok ==> {
                &&& n.tokens[token].minted == t.minted + amount
                &&& n.tokens[token].index == t.index
                &&& n.tokens[token].owner == t.owner
                &&& n.tokens[token].metadata == t.metadata
                &&& n == (Records { tokens: r.tokens.insert(token, n.tokens[token]), ..r })
                &&& out->Ok_0@ == r.fee_payments(admin, fee_payment as int).push(Action::Mint { token, to, amount })
            }
        }),
{
    guarantees::law_when_minting_is_granted(old(f)@, token, admin, amount as int, fee_payment as int);
}

/// What a granted mint moves: everyone but the treasury gets its parts of the
/// fee, the payer loses the fee, and the recipient gets the minted amount.
pub proof fn law_mint_tokens_moves(
    f: &mut Factory,
    token: u64,
    admin: u64,
    to: u64,
    amount: i128,
    fee_payment: i128,
    out: Result<Vec<Action>, Error>,
    who: u64,
    other_token: u64,
)
    requires
        call_ensures(Factory::mint_tokens, (f, token, admin, to, amount, fee_payment), out),
        old(f)@.wf(),
        old(f)@.state is Some,
        out is Ok,
        other_token != old(f)@.state->0.fee_token,
    ensures
        ({
            let r = old(f)@;
            let s = r.state->0;
            let parts = if r.fee_split.contains_key(who) { r.fee_split[who] as int } else { 0 };
            &&& who != s.treasury ==> action::net_change(out->Ok_0@, s.fee_token, who) == fee_payment * parts / 10_000
                - (if who == admin { fee_payment as int } else { 0 }) + (if token == s.fee_token && who == to {
                amount as int
            } else {
                0
            })
            &&& action::net_change(out->Ok_0@, other_token, who) == (if token == other_token && who == to {
                amount as int
            } else {
                0
            })
        }),
{
    let r = old(f)@;
    let s = r.state->0;
    let fee = fee_payment as int;
    law_mint_tokens(f, token, admin, to, amount, fee_payment, out);
    guarantees::law_mint_moves_fee_and_amount(r, token, admin, to, amount, fee_payment, s.fee_token, who);
    guarantees::law_mint_moves_fee_and_amount(r, token, admin, to, amount, fee_payment, other_token, who);
    fees::law_fee_moves_nothing_else(s.fee_token, admin, s.treasury, fee_payment, r.fee_split, other_token, who);
    if who != s.treasury {
        lemma_fee_effect(r, admin, fee, who);
    }
}

proof fn lemma_fee_effect(r: Records, from: u64, fee: int, who: u64)
    requires
        r.wf(),
        r.state is Some,
        0 <= fee <= i128::MAX,
        who != r.state->0.treasury,
    ensures
        ({
            let parts = if r.fee_split.contains_key(who) { r.fee_split[who] as int } else { 0 };
            action::net_change(r.fee_payments(from, fee), r.state->0.fee_token, who) == fee * parts / 10_000 - (
            if who == from { fee } else { 0 })
        }),
{
    let s = r.state->0;
    fees::law_fee_reaches_recipients(s.fee_token, from, s.treasury, fee as i128, r.fee_split, who);
    assert(fee * 0 / 10_000 == 0);
}

/// Setting metadata is granted just to the owner of a known token that has
/// none, on an open factory, for at least the metadata fee. It then is found
/// as it was given, and the metadata fee is paid. A refusal changes nothing.
pub proof fn law_set_metadata(
    f: &mut Factory,
    token: u64,
    admin: u64,
    uri: String,
    fee_payment: i128,
    out: Result<Vec<Action>, Error>,
)
    requires
        call_ensures(Factory::set_metadata, (f, token, admin, uri, fee_payment), out),
        old(f)@.wf(),
        old(f)@.state is Some,
    ensures
        ({
            let r = old(f)@;
            let n = final(f)@;
            let t = r.tokens[token];
            &&& out is Ok <==> {
                &&& !r.state->0.locked
                &&& !r.state->0.paused
                &&& r.state->0.metadata_fee <= fee_payment
                &&& r.tokens.contains_key(token)
                &&& t.owner == admin
                &&& t.metadata is None
            }
            &&& out is Err ==> n == r
            &&& out is Err ==> state::metadata_refusal(r, token, admin, fee_payment as int) == Some(out->Err_0)
            &&& out is Ok ==> {
                &&& n.tokens[token].metadata == Some(uri)
                &&& n.tokens[token].index == t.index
                &&& n.tokens[token].owner == t.owner
                &&& n.tokens[token].minted == t.minted
                &&& n == (Records { tokens: r.tokens.insert(token, n.tokens[token]), ..r })
                &&& out->Ok_0@ == r.fee_payments(admin, r.state->0.metadata_fee as int)
            }
        }),
{
    guarantees::law_when_metadata_is_granted(old(f)@, token, admin, fee_payment as int);
}

/// What setting metadata moves: everyone but the treasury gets its parts of
/// the metadata fee, and the payer loses that fee.
pub proof fn law_set_metadata_moves(
    f: &mut Factory,
    token: u64,
    admin: u64,
    uri: String,
    fee_payment: i128,
    out: Result<Vec<Action>, Error>,
    who: u64,
    other_token: u64,
)
    requires
        call_ensures(Factory::set_metadata, (f, token, admin, uri, fee_payment), out),
        old(f)@.wf(),
        old(f)@.state is Some,
        out is Ok,
        other_token != old(f)@.state->0.fee_token,
    ensures
        ({
            let r = old(f)@;
            let s = r.state->0;
            let parts = if r.fee_split.contains_key(who) { r.fee_split[who] as int } else { 0 };
            &&& who != s.treasury ==> action::net_change(out->Ok_0@, s.fee_token, who) == s.metadata_fee * parts
                / 10_000 - (if who == admin { s.metadata_fee as int } else { 0 })
            &&& action::net_change(out->Ok_0@, other_token, who) == 0
        }),
{
    let r = old(f)@;
    let s = r.state->0;
    law_set_metadata(f, token, admin, uri, fee_payment, out);
    fees::law_fee_moves_nothing_else(s.fee_token, admin, s.treasury, s.metadata_fee, r.fee_split, other_token, who);
    if who != s.treasury {
        lemma_fee_effect(r, admin, s.metadata_fee as int, who);
    }
}

/// A burn is granted just for a positive amount that the holder has, of a
/// known token whose burning is switched on, and burns that amount of it.
pub proof fn law_burn(f: &Factory, token: u64, from: u64, amount: i128, balance: i128, out: Result<Action, Error>)
    requires
        call_ensures(Factory::burn, (f, token, from, amount, balance), out),
    ensures
        out is Ok <==> 0 < amount <= balance && f@.tokens.contains_key(token)
            && f@.infos[f@.tokens[token].index].burn_enabled,
        out is Ok ==> out->Ok_0 == (Action::Burn { token, from, amount }),
        out is Err ==> out->Err_0 == (if amount <= 0 {
            Error::InvalidBurnAmount
        } else if balance < amount {
            Error::BurnAmountExceedsBalance
        } else if f@.tokens.contains_key(token) {
            Error::BurnNotEnabled
        } else {
            Error::TokenNotFound
        }),
{
    guarantees::law_when_burning_is_granted(f@, token, amount as int, balance as int);
}

/// Burning is switched just by the owner of a known token; nothing but the
/// switch in the token's description changes.
pub proof fn law_set_burn_enabled(f: &mut Factory, token: u64, admin: u64, enabled: bool, out: Result<(), Error>)
    requires
        call_ensures(Factory::set_burn_enabled, (f, token, admin, enabled), out),
    ensures
        ({
            let r = old(f)@;
            let n = final(f)@;
            let index = r.tokens[token].index;
            &&& out is Ok <==> r.tokens.contains_key(token) && r.tokens[token].owner == admin
            &&& out is Err ==> n == r
            &&& out is Err ==> out->Err_0 == (if r.tokens.contains_key(token) {
                Error::Unauthorized
            } else {
                Error::TokenNotFound
            })
            &&& out is Ok ==> n == (Records {
                infos: r.infos.insert(index, TokenInfo { burn_enabled: enabled, ..r.infos[index] }),
                ..r
            })
        }),
{
}

/// Just the admin pauses the factory, and opens it again; nothing else changes.
pub proof fn law_pause_and_unpause(
    f: &mut Factory,
    g: &mut Factory,
    admin: u64,
    paused: Result<(), Error>,
    opened: Result<(), Error>,
)
    requires
        call_ensures(Factory::pause, (f, admin), paused),
        call_ensures(Factory::unpause, (g, admin), opened),
        old(f)@.state is Some,
        old(g)@.state is Some,
    ensures
        paused is Ok <==> old(f)@.state->0.admin == admin,
        opened is Ok <==> old(g)@.state->0.admin == admin,
        paused is Err ==> final(f)@ == old(f)@ && paused->Err_0 == Error::Unauthorized,
        opened is Err ==> final(g)@ == old(g)@ && opened->Err_0 == Error::Unauthorized,
        paused is Ok ==> final(f)@ == (Records {
            state: Some(FactoryState { paused: true, ..old(f)@.state->0 }),
            ..old(f)@
        }),
        opened is Ok ==> final(g)@ == (Records {
            state: Some(FactoryState { paused: false, ..old(g)@.state->0 }),
            ..old(g)@
        }),
{
}

/// Just the admin changes fees, to fees that are not negative; a fee that is
/// not given stays, and nothing else changes.
pub proof fn law_update_fees(
    f: &mut Factory,
    admin: u64,
    base_fee: Option<i128>,
    metadata_fee: Option<i128>,
    out: Result<(), Error>,
)
    requires
        call_ensures(Factory::update_fees, (f, admin, base_fee, metadata_fee), out),
        old(f)@.state is Some,
    ensures
        ({
            let s = old(f)@.state->0;
            let n = final(f)@.state->0;
            &&& out is Ok <==> s.admin == admin && (base_fee is Some ==> 0 <= base_fee->0) && (metadata_fee is Some
                ==> 0 <= metadata_fee->0)
            &&& out is Err ==> final(f)@ == old(f)@
            &&& out is Err ==> out->Err_0 == (if s.admin == admin {
                Error::InvalidParameters
            } else {
                Error::Unauthorized
            })
            &&& out is Ok ==> {
                &&& base_fee is Some ==> n.base_fee == base_fee->0
                &&& base_fee is None ==> n.base_fee == s.base_fee
                &&& metadata_fee is Some ==> n.metadata_fee == metadata_fee->0
                &&& metadata_fee is None ==> n.metadata_fee == s.metadata_fee
                &&& final(f)@ == (Records {
                    state: Some(FactoryState { base_fee: n.base_fee, metadata_fee: n.metadata_fee, ..s }),
                    ..old(f)@
                })
            }
        }),
{
}

/// Just the admin passes its office on, and to someone else only, by either
/// of the two calls for it; nothing else changes.
pub proof fn law_transfer_and_update_admin(
    f: &mut Factory,
    g: &mut Factory,
    admin: u64,
    new_admin: u64,
    transferred: Result<(), Error>,
    updated: Result<(), Error>,
)
    requires
        call_ensures(Factory::transfer_admin, (f, admin, new_admin), transferred),
        call_ensures(Factory::update_admin, (g, admin, new_admin), updated),
        old(f)@.state is Some,
        old(f)@ == old(g)@,
    ensures
        transferred is Ok <==> old(f)@.state->0.admin == admin && new_admin != admin,
        transferred is Err ==> final(f)@ == old(f)@,
        transferred is Err ==> transferred->Err_0 == (if old(f)@.state->0.admin == admin {
            Error::InvalidParameters
        } else {
            Error::Unauthorized
        }),
        transferred is Ok ==> final(f)@ == (Records {
            state: Some(FactoryState { admin: new_admin, ..old(f)@.state->0 }),
            ..old(f)@
        }),
        updated is Ok <==> transferred is Ok,
        updated is Err ==> updated->Err_0 == transferred->Err_0,
        final(g)@ == final(f)@,
{
}

/// Just the admin has the code replaced, by the code that it names.
pub proof fn law_upgrade(f: &Factory, admin: u64, hash: [u8; 32], out: Result<[u8; 32], Error>)
    requires
        call_ensures(Factory::upgrade, (f, admin, hash), out),
        f@.state is Some,
    ensures
        out == (if f@.state->0.admin == admin {
            Ok::<[u8; 32], Error>(hash)
        } else {
            Err::<[u8; 32], Error>(Error::Unauthorized)
        }),
{
}

/// Just the admin puts a split in force, and just one without entries or one
/// whose parts add up to ten thousand; it then is the split in force, and
/// nothing else changes. `entries` lists the split.
pub proof fn law_set_fee_split(
    f: &mut Factory,
    admin: u64,
    fee_split: FeeSplit,
    entries: Seq<(u64, u32)>,
    out: Result<(), Error>,
)
    requires
        call_ensures(Factory::set_fee_split, (f, admin, fee_split), out),
        old(f)@.state is Some,
        forall|i: int, j: int| 0 <= i < j < entries.len() ==> (#[trigger] entries[i]).0 < (#[trigger] entries[j]).0,
        forall|i: int|
            0 <= i < entries.len() ==> fee_split@.contains_key((#[trigger] entries[i]).0) && fee_split@[entries[i].0]
                == entries[i].1,
        forall|k: u64| #[trigger]
            fee_split@.contains_key(k) ==> exists|i: int| 0 <= i < entries.len() && (#[trigger] entries[i]).0 == k,
    ensures
        ({
            let whole = entries.len() == 0 || entries.fold_left(0, |sum: int, e: (u64, u32)| sum + e.1) == 10_000;
            &&& out is Ok <==> old(f)@.state->0.admin == admin && whole
            &&& out is Err ==> final(f)@ == old(f)@
            &&& out is Err ==> out->Err_0 == (if old(f)@.state->0.admin == admin {
                Error::InvalidFeeSplit
            } else {
                Error::Unauthorized
            })
            &&& out is Ok ==> final(f)@ == (Records { fee_split: fee_split@, ..old(f)@ })
        }),
{
    split::law_parts_make_up_the_whole(fee_split@, entries);
}

/// What is asked of a factory is what is on record.
pub proof fn law_what_is_told(
    f: &Factory,
    index: u32,
    creator: u64,
    s: FactoryState,
    fee_split: &FeeSplit,
    info: Result<&TokenInfo, Error>,
    indices: Vec<u32>,
)
    requires
        call_ensures(Factory::get_state, (f,), s),
        call_ensures(Factory::get_fee_split, (f,), fee_split),
        call_ensures(Factory::get_token_info, (f, index), info),
        call_ensures(Factory::get_tokens_by_creator, (f, creator), indices),
    ensures
        f@.state == Some(s),
        fee_split@ == f@.fee_split,
        info is Ok <==> f@.infos.contains_key(index),
        info is Ok ==> *info->Ok_0 == f@.infos[index],
        info is Err ==> info->Err_0 == Error::TokenNotFound,
        f@.creator_tokens.contains_key(creator) ==> indices@ == f@.creator_tokens[creator],
        !f@.creator_tokens.contains_key(creator) ==> indices@.len() == 0,
{
}

/// An order is accepted just where the factory is open, at least one token is
/// asked for, each may be created, the base fee for each is offered, and
/// there are numbers left. It then holds what was asked for and locks the
/// factory; a refused order changes nothing.
pub proof fn law_create_tokens_batch(
    f: &mut Factory,
    creator: u64,
    tokens: Vec<BatchTokenParams>,
    fee_payment: i128,
    out: Result<Creation, Error>,
)
    requires
        call_ensures(Factory::create_tokens_batch, (f, creator, tokens, fee_payment), out),
        old(f)@.wf(),
        old(f)@.state is Some,
    ensures
        ({
            let r = old(f)@;
            let s = r.state->0;
            &&& out is Ok <==> {
                &&& !s.locked
                &&& !s.paused
                &&& 0 < tokens@.len()
                &&& s.base_fee * tokens@.len() <= fee_payment
                &&& s.token_count + tokens@.len() <= u32::MAX
                &&& forall|i: int|
                    0 <= i < tokens@.len() ==> {
                        &&& 0 < (#[trigger] tokens@[i]).name@.len()
                        &&& 0 < tokens@[i].symbol@.len()
                        &&& tokens@[i].decimals <= 18
                        &&& tokens@[i].initial_supply <= i128::MAX
                        &&& tokens@[i].max_supply is Some ==> tokens@[i].initial_supply <= tokens@[i].max_supply->0
                    }
            }
            &&& out is Err ==> final(f)@ == r
            &&& out is Err ==> state::creation_refusal(r, tokens@, fee_payment as int) == Some(out->Err_0)
            &&& out is Ok ==> {
                &&& final(f)@ == (Records { state: Some(FactoryState { locked: true, ..s }), ..r })
                &&& out->Ok_0@.creator == creator
                &&& out->Ok_0@.tokens == tokens@
                &&& out->Ok_0@.payments == r.fee_payments(creator, s.base_fee * tokens@.len())
            }
        }),
{
    guarantees::law_when_an_order_is_accepted(old(f)@, tokens@, fee_payment);
}

/// What an accepted order moves: everyone but the treasury gets its parts of
/// the base fee for all tokens together, and the creator loses that fee.
pub proof fn law_create_tokens_batch_moves(
    f: &mut Factory,
    creator: u64,
    tokens: Vec<BatchTokenParams>,
    fee_payment: i128,
    out: Result<Creation, Error>,
    who: u64,
    other_token: u64,
)
    requires
        call_ensures(Factory::create_tokens_batch, (f, creator, tokens, fee_payment), out),
        old(f)@.wf(),
        old(f)@.state is Some,
        out is Ok,
        other_token != old(f)@.state->0.fee_token,
    ensures
        ({
            let r = old(f)@;
            let s = r.state->0;
            let fee = s.base_fee * tokens@.len();
            let parts = if r.fee_split.contains_key(who) { r.fee_split[who] as int } else { 0 };
            &&& who != s.treasury ==> action::net_change(out->Ok_0@.payments, s.fee_token, who) == fee * parts / 10_000
                - (if who == creator { fee } else { 0 })
            &&& action::net_change(out->Ok_0@.payments, other_token, who) == 0
        }),
{
    let r = old(f)@;
    let s = r.state->0;
    let fee = s.base_fee * tokens@.len();
    law_create_tokens_batch(f, creator, tokens, fee_payment, out);
    assert(0 <= fee) by (nonlinear_arith)
        requires
            fee == s.base_fee * tokens@.len(),
            0 <= s.base_fee,
    ;
    fees::law_fee_moves_nothing_else(s.fee_token, creator, s.treasury, fee as i128, r.fee_split, other_token, who);
    if who != s.treasury {
        lemma_fee_effect(r, creator, fee, who);
    }
}

/// Creating one token is ordering a batch of one, without a cap.
pub proof fn law_create_token(
    f: &mut Factory,
    creator: u64,
    salt: [u8; 32],
    hash: [u8; 32],
    name: String,
    symbol: String,
    decimals: u32,
    initial_supply: u128,
    fee_payment: i128,
    out: Result<Creation, Error>,
)
    requires
        call_ensures(
            Factory::create_token,
            (f, creator, salt, hash, name, symbol, decimals, initial_supply, fee_payment),
            out,
        ),
        old(f)@.wf(),
        old(f)@.state is Some,
    ensures
        ({
            let r = old(f)@;
            let s = r.state->0;
            let asked = BatchTokenParams {
                salt,
                token_wasm_hash: hash,
                name,
                symbol,
                decimals,
                initial_supply,
                max_supply: None,
            };
            &&& out is Ok <==> {
                &&& !s.locked
                &&& !s.paused
                &&& s.base_fee <= fee_payment
                &&& s.token_count < u32::MAX
                &&& 0 < name@.len()
                &&& 0 < symbol@.len()
                &&& decimals <= 18
                &&& initial_supply <= i128::MAX
            }
            &&& out is Err ==> final(f)@ == r
            &&& out is Err ==> state::creation_refusal(r, seq![asked], fee_payment as int) == Some(out->Err_0)
            &&& out is Ok ==> {
                &&& final(f)@ == (Records { state: Some(FactoryState { locked: true, ..s }), ..r })
                &&& out->Ok_0@.creator == creator
                &&& out->Ok_0@.tokens == seq![asked]
                &&& out->Ok_0@.payments == r.fee_payments(creator, s.base_fee as int)
            }
        }),
{
    let s = old(f)@.state->0;
    let asked = BatchTokenParams {
        salt,
        token_wasm_hash: hash,
        name,
        symbol,
        decimals,
        initial_supply,
        max_supply: None,
    };
    guarantees::law_when_an_order_is_accepted(old(f)@, seq![asked], fee_payment);
    assert(seq![asked][0] == asked);
    assert(s.base_fee * 1 == s.base_fee);
}

/// Giving an order up opens the factory again and changes nothing else.
pub proof fn law_cancel_creation(f: &mut Factory, creation: Creation)
    requires
        call_ensures(Factory::cancel_creation, (f, creation), ()),
        old(f)@.state is Some,
    ensures
        final(f)@ == (Records { state: Some(FactoryState { locked: false, ..old(f)@.state->0 }), ..old(f)@ }),
{
}

/// An order is entered just where there is one new address for each of its
/// tokens and room for all; the factory is open afterwards either way. Where
/// it is entered, the token at `i` has the number of its turn, is described
/// as it was asked to be, belongs to the creator and is listed under it; where
/// not, nothing else changes.
pub proof fn law_finish_creation(
    f: &mut Factory,
    env: &soroban_sdk::Env,
    creation: Creation,
    addresses: &Vec<u64>,
    now: u64,
    out: Result<Created, Error>,
    i: int,
)
    requires
        call_ensures(Factory::finish_creation, (f, env, creation, addresses, now), out),
        old(f)@.wf(),
        old(f)@.state is Some,
        0 <= i < creation@.tokens.len(),
        forall|a: int| 0 <= a < creation@.tokens.len() ==> (#[trigger] creation@.tokens[a]).initial_supply <= i128::MAX,
    ensures
        ({
            let r = old(f)@;
            let n = final(f)@;
            let creator = creation@.creator;
            let asked = creation@.tokens[i];
            let count = creation@.tokens.len();
            let address = addresses@[i];
            let index = (r.state->0.token_count + 1 + i) as u32;
            let before = if r.creator_tokens.contains_key(creator) {
                r.creator_tokens[creator]
            } else {
                Seq::empty()
            };
            &&& out is Ok <==> {
                &&& addresses@.len() == count
                &&& forall|a: int| 0 <= a < addresses@.len() ==> !r.tokens.contains_key(#[trigger] addresses@[a])
                &&& forall|a: int, b: int| 0 <= a < b < addresses@.len() ==> addresses@[a] != addresses@[b]
                &&& r.state->0.token_count + count <= u32::MAX
                &&& before.len() + count <= u32::MAX
            }
            &&& out is Err ==> n == (Records { state: Some(FactoryState { locked: false, ..r.state->0 }), ..r })
            &&& out is Err ==> state::entry_refusal(r, creator, count, addresses@) == Some(out->Err_0)
            &&& out is Ok ==> {
                &&& n.state == Some(
                    FactoryState {
                        locked: false,
                        token_count: (r.state->0.token_count + count) as u32,
                        ..r.state->0
                    },
                )
                &&& out->Ok_0.indices@.len() == count
                &&& out->Ok_0.indices@[i] == index
                &&& n.infos.contains_key(index)
                &&& n.infos[index].name == asked.name
                &&& n.infos[index].symbol == asked.symbol
                &&& n.infos[index].decimals == asked.decimals
                &&& n.infos[index].max_supply == asked.max_supply
                &&& n.infos[index].creator == creator
                &&& n.infos[index].created_at == now
                &&& n.infos[index].burn_enabled
                &&& n.tokens.contains_key(address)
                &&& n.tokens[address].index == index
                &&& n.tokens[address].owner == creator
                &&& n.tokens[address].minted == asked.initial_supply
                &&& n.tokens[address].metadata is None
                &&& n.creator_tokens.contains_key(creator)
                &&& n.creator_tokens[creator].len() == before.len() + count
                &&& n.creator_tokens[creator][before.len() + i] == index
                &&& n.fee_split == r.fee_split
                &&& out->Ok_0.issues@ == state::issues(creator, creation@.tokens, addresses@, count)
            }
        }),
{
    let r = old(f)@;
    let o = creation@;
    let open = r.with_lock(false);
    guarantees::law_when_deployed_tokens_are_entered(r, o.creator, o.tokens.len(), addresses@);
    if out is Ok {
        crate::creation::lemma_created_all(open, o.creator, o.tokens, addresses@, now, addresses@.len());
        guarantees::law_created_tokens_are_as_asked(open, o.creator, o.tokens, addresses@, now, addresses@.len(), i);
        guarantees::law_created_tokens_are_listed(open, o.creator, o.tokens, addresses@, now, addresses@.len(), i);
    }
}

/// Entering an order leaves every other token, number and creator as it was,
/// and the tokens that were listed before stay listed; the creator gets the
/// initial supply of each token, and nobody anything else.
pub proof fn law_finish_creation_moves(
    f: &mut Factory,
    env: &soroban_sdk::Env,
    creation: Creation,
    addresses: &Vec<u64>,
    now: u64,
    out: Result<Created, Error>,
    i: int,
    who: u64,
    other: u64,
    other_index: u32,
    other_creator: u64,
)
    requires
        call_ensures(Factory::finish_creation, (f, env, creation, addresses, now), out),
        old(f)@.wf(),
        old(f)@.state is Some,
        out is Ok,
        0 <= i < creation@.tokens.len(),
        forall|a: int| 0 <= a < creation@.tokens.len() ==> (#[trigger] creation@.tokens[a]).initial_supply <= i128::MAX,
        forall|a: int| 0 <= a < addresses@.len() ==> addresses@[a] != other,
        other_index <= old(f)@.state->0.token_count || old(f)@.state->0.token_count + addresses@.len() < other_index,
        other_creator != creation@.creator,
    ensures
        ({
            let r = old(f)@;
            let n = final(f)@;
            let creator = creation@.creator;
            &&& n.tokens.contains_key(other) == r.tokens.contains_key(other)
            &&& n.tokens[other] == r.tokens[other]
            &&& n.infos.contains_key(other_index) == r.infos.contains_key(other_index)
            &&& n.infos[other_index] == r.infos[other_index]
            &&& n.creator_tokens.contains_key(other_creator) == r.creator_tokens.contains_key(other_creator)
            &&& n.creator_tokens[other_creator] == r.creator_tokens[other_creator]
            &&& r.creator_tokens.contains_key(creator) ==> r.creator_tokens[creator].is_prefix_of(
                n.creator_tokens[creator],
            )
            &&& action::net_change(out->Ok_0.issues@, addresses@[i], who) == (if who == creator {
                creation@.tokens[i].initial_supply as int
            } else {
                0
            })
            &&& action::net_change(out->Ok_0.issues@, other, who) == 0
        }),
{
    let r = old(f)@;
    let n = final(f)@;
    let o = creation@;
    let open = r.with_lock(false);
    let k = addresses@.len();
    law_finish_creation(f, env, creation, addresses, now, out, i);
    guarantees::law_creation_leaves_the_rest(
        open,
        o.creator,
        o.tokens,
        addresses@,
        now,
        k,
        other,
        other_index,
        other_creator,
    );
    guarantees::law_asked_supply_is_issued(o.creator, o.tokens, addresses@, k, i, who, other);
    if r.creator_tokens.contains_key(o.creator) {
        let before = r.creator_tokens[o.creator];
        assert forall|j: int| 0 <= j < before.len() implies before[j] == n.creator_tokens[o.creator][j] by {
            guarantees::law_created_tokens_are_listed(open, o.creator, o.tokens, addresses@, now, k, j);
        }
        assert(before =~= n.creator_tokens[o.creator].take(before.len() as int));
    }
}

/// An order tells what it holds.
pub proof fn law_order_is_told(
    creation: &Creation,
    creator: u64,
    payments: &Vec<Action>,
    tokens: &Vec<BatchTokenParams>,
)
    requires
        call_ensures(Creation::creator, (creation,), creator),
        call_ensures(Creation::payments, (creation,), payments),
        call_ensures(Creation::tokens, (creation,), tokens),
    ensures
        creator == creation@.creator,
        payments@ == creation@.payments,
        tokens@ == creation@.tokens,
{
}

/// A share is the largest whole amount within its parts of the fee.
pub proof fn law_compute_share(fee: i128, parts: u32, amount: i128)
    requires
        call_ensures(fees::compute_share, (fee, parts), amount),
        0 <= fee,
    ensures
        amount * 10_000 <= fee * parts < (amount + 1) * 10_000,
{
    fees::law_share_rounds_down(fee as int, parts as int, amount as int);
    assert(0 <= fee * parts) by (nonlinear_arith)
        requires
            0 <= fee,
            0 <= parts,
    ;
}

/// Charging a fee gives every recipient but the treasury its parts, takes the
/// fee from the payer, and moves no other token.
pub proof fn law_charge(
    token: u64,
    from: u64,
    treasury: u64,
    fee: i128,
    recipients: &FeeSplit,
    payments: Vec<Action>,
    who: u64,
    other_token: u64,
)
    requires
        call_ensures(fees::charge, (token, from, treasury, fee, recipients), payments),
        0 <= fee,
        split::valid_split(recipients@),
        who != treasury,
        other_token != token,
    ensures
        ({
            let parts = if recipients@.contains_key(who) { recipients@[who] as int } else { 0 };
            action::net_change(payments@, token, who) == fee * parts / 10_000 - (if who == from {
                fee as int
            } else {
                0
            })
        }),
        action::net_change(payments@, other_token, who) == 0,
        fees::amount_moved(payments@) == fee,
{
    fees::law_fee_reaches_recipients(token, from, treasury, fee, recipients@, who);
    fees::law_fee_moves_nothing_else(token, from, treasury, fee, recipients@, other_token, who);
    fees::law_fee_paid_in_full(token, from, treasury, fee, recipients@);
    assert(fee * 0 / 10_000 == 0);
}

/// A split lists its entries once each, in ascending order, and may be put in
/// force just where it has none or their parts add up to ten thousand.
pub proof fn law_split_tells(fee_split: &FeeSplit, entries: Vec<(u64, u32)>, valid: bool, empty: bool)
    requires
        call_ensures(FeeSplit::entries, (fee_split,), entries),
        call_ensures(FeeSplit::is_valid, (fee_split,), valid),
        call_ensures(FeeSplit::is_empty, (fee_split,), empty),
    ensures
        forall|i: int, j: int|
            0 <= i < j < entries@.len() ==> (#[trigger] entries@[i]).0 < (#[trigger] entries@[j]).0,
        forall|i: int|
            0 <= i < entries@.len() ==> fee_split@.contains_key((#[trigger] entries@[i]).0)
                && fee_split@[entries@[i].0] == entries@[i].1,
        forall|k: u64| #[trigger]
            fee_split@.contains_key(k) ==> exists|i: int| 0 <= i < entries@.len() && (#[trigger] entries@[i]).0 == k,
        empty <==> entries@.len() == 0,
        valid <==> empty || entries@.fold_left(0, |sum: int, e: (u64, u32)| sum + e.1) == 10_000,
{
    split::law_parts_make_up_the_whole(fee_split@, entries@);
    if entries@.len() == 0 {
        assert(fee_split@ =~= Map::<u64, u32>::empty());
    } else {
        assert(fee_split@.contains_key(entries@[0].0));
    }
}

/// A split made from pairs gives a recipient the parts that the last pair
/// naming it says, and none to a recipient that no pair names.
pub proof fn law_make_split(
    env: &soroban_sdk::Env,
    pairs: &[(u64, u32)],
    fee_split: FeeSplit,
    at: int,
    unnamed: u64,
)
    requires
        call_ensures(split::make_split, (env, pairs), fee_split),
        0 <= at < pairs@.len(),
        forall|i: int| at < i < pairs@.len() ==> (#[trigger] pairs@[i]).0 != pairs@[at].0,
        forall|i: int| 0 <= i < pairs@.len() ==> (#[trigger] pairs@[i]).0 != unnamed,
    ensures
        fee_split@.contains_key(pairs@[at].0),
        fee_split@[pairs@[at].0] == pairs@[at].1,
        !fee_split@.contains_key(unnamed),
{
    split::law_last_pair_counts(pairs@, at, unnamed);
}

/// A factory that has been set up for trying calls out has round fees, is
/// open and empty, and has its storage ordered to live on.
pub proof fn law_setup_new(env: &soroban_sdk::Env, admin: u64, treasury: u64, fee_token: u64, s: Setup)
    requires
        call_ensures(Setup::new, (env, admin, treasury, fee_token), s),
    ensures
        s.admin == admin,
        s.treasury == treasury,
        s.fee_token == fee_token,
        s.factory@.state == Some(
            FactoryState {
                admin,
                treasury,
                fee_token,
                base_fee: 1_000,
                metadata_fee: 500,
                paused: false,
                token_count: 0,
                locked: false,
            },
        ),
        s.factory@.infos == Map::<u32, TokenInfo>::empty(),
        s.factory@.tokens == Map::<u64, token::TokenRecord>::empty(),
        s.factory@.creator_tokens == Map::<u64, Seq<u32>>::empty(),
        s.factory@.fee_split == Map::<u64, u32>::empty(),
        factory::MIN_TTL <= s.ttl.threshold <= s.ttl.extend_to,
{
}

/// A token that is entered without an order gets the next number, belongs to
/// its creator, and is described as asked; nothing else on record changes.
pub proof fn law_seed_token(
    s: &mut Setup,
    token: u64,
    creator: u64,
    burn_enabled: bool,
    max_supply: Option<i128>,
    index: u32,
)
    requires
        call_ensures(setup::seed_token, (s, token, creator, burn_enabled, max_supply), index),
        old(s).factory@.state is Some,
        old(s).factory@.state->0.token_count < u32::MAX,
    ensures
        ({
            let r = old(s).factory@;
            let n = final(s).factory@;
            &&& index == r.state->0.token_count + 1
            &&& n.tokens[token].index == index
            &&& n.tokens[token].owner == creator
            &&& n.tokens[token].minted == 0
            &&& n.tokens[token].metadata is None
            &&& n.infos[index].name@ == "T"@
            &&& n.infos[index].symbol@ == "T"@
            &&& n.infos[index].decimals == 7
            &&& n.infos[index].creator == creator
            &&& n.infos[index].created_at == 0
            &&& n.infos[index].burn_enabled == burn_enabled
            &&& n.infos[index].max_supply == max_supply
            &&& n == (Records {
                state: Some(FactoryState { token_count: index, ..r.state->0 }),
                tokens: r.tokens.insert(token, n.tokens[token]),
                infos: r.infos.insert(index, n.infos[index]),
                ..r
            })
        }),
{
}

/// Entering a token without naming a cap is entering it without one.
pub proof fn law_seed_token_with_burn(
    s: &mut Setup,
    token: u64,
    creator: u64,
    burn_enabled: bool,
    index: u32,
)
    requires
        call_ensures(setup::seed_token_with_burn, (s, token, creator, burn_enabled), index),
        old(s).factory@.state is Some,
        old(s).factory@.state->0.token_count < u32::MAX,
    ensures
        ({
            let r = old(s).factory@;
            let n = final(s).factory@;
            &&& index == r.state->0.token_count + 1
            &&& n.tokens[token].index == index
            &&& n.tokens[token].owner == creator
            &&& n.tokens[token].minted == 0
            &&& n.tokens[token].metadata is None
            &&& n.infos[index].name@ == "T"@
            &&& n.infos[index].symbol@ == "T"@
            &&& n.infos[index].decimals == 7
            &&& n.infos[index].creator == creator
            &&& n.infos[index].created_at == 0
            &&& n.infos[index].burn_enabled == burn_enabled
            &&& n.infos[index].max_supply is None
            &&& n == (Records {
                state: Some(FactoryState { token_count: index, ..r.state->0 }),
                tokens: r.tokens.insert(token, n.tokens[token]),
                infos: r.infos.insert(index, n.infos[index]),
                ..r
            })
        }),
{
}

/// A request for trying calls out asks for what it is given, and can be
/// ordered where name and symbol are not empty; a batch holds the requests in
/// their order; whoever is funded gets that much of the fee token.
pub proof fn law_requests_are_as_given(
    n: u8,
    name: &str,
    symbol: &str,
    p: BatchTokenParams,
    params: &[BatchTokenParams],
    batch: Vec<BatchTokenParams>,
    s: &Setup,
    recipient: u64,
    amount: i128,
    funding: Action,
    i: int,
)
    requires
        call_ensures(setup::batch_param, (n, name, symbol), p),
        call_ensures(setup::batch_vec, (params,), batch),
        call_ensures(Setup::fund, (s, recipient, amount), funding),
        0 <= i < 32,
    ensures
        p.salt@.len() == 32,
        p.salt@[i] == n,
        p.token_wasm_hash@.len() == 32,
        p.token_wasm_hash@[i] == 0,
        p.name@ == name@,
        p.symbol@ == symbol@,
        p.decimals == 7,
        p.initial_supply == 0,
        p.max_supply is None,
        token::token_fault(p) is None <==> 0 < name@.len() && 0 < symbol@.len(),
        batch@ == params@,
        action::change(funding, s.fee_token, recipient) == amount,
        funding == (Action::Mint { token: s.fee_token, to: recipient, amount }),
{
}

/// What is set in a split is found there, and every other entry stays.
pub proof fn law_split_set(fee_split: &mut FeeSplit, recipient: u64, parts: u32, other: u64)
    requires
        call_ensures(FeeSplit::set, (fee_split, recipient, parts), ()),
        other != recipient,
    ensures
        final(fee_split)@.contains_key(recipient),
        final(fee_split)@[recipient] == parts,
        final(fee_split)@.contains_key(other) == old(fee_split)@.contains_key(other),
        old(fee_split)@.contains_key(other) ==> final(fee_split)@[other] == old(fee_split)@[other],
{
}

/// A split tells the parts of those that it names, and of nobody else.
pub proof fn law_split_get(fee_split: &FeeSplit, recipient: u64, parts: Option<u32>)
    requires
        call_ensures(FeeSplit::get, (fee_split, recipient), parts),
    ensures
        parts is Some <==> fee_split@.contains_key(recipient),
        parts is Some ==> parts->0 == fee_split@[recipient],
{
}

} // verus!
