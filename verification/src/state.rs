//! The factory's records, and what each call makes of them.

use vstd::prelude::*;

use crate::action::Action;
use crate::error::Error;
use crate::fees;
use crate::split;
use crate::token;
use crate::token::{BatchTokenParams, TokenInfo, TokenRecord};

verus! {

/// The settings and counters of a factory that has been set up.
#[derive(Clone, Copy, Debug, PartialEq, Eq, Structural)]
pub struct FactoryState {
    pub admin: u64,
    pub treasury: u64,
    pub fee_token: u64,
    pub base_fee: i128,
    pub metadata_fee: i128,
    pub paused: bool,
    pub token_count: u32,
    pub locked: bool,
}

/// All records of a factory.
#[verifier::ext_equal]
pub struct Records {
    pub state: Option<FactoryState>,
    pub infos: Map<u32, TokenInfo>,
    pub tokens: Map<u64, TokenRecord>,
    pub creator_tokens: Map<u64, Seq<u32>>,
    pub fee_split: Map<u64, u32>,
}

impl Records {
    /// The records hang together.
    pub open spec fn wf(self) -> bool {
        &&& split::valid_split(self.fee_split)
        &&& self.state matches Some(s) ==> 0 <= s.base_fee && 0 <= s.metadata_fee
        &&& forall|t: u64| #[trigger] self.tokens.contains_key(t) ==> self.record_wf(self.tokens[t])
        &&& forall|t: u64, u: u64|
            #![trigger self.tokens.contains_key(t), self.tokens.contains_key(u)]
            self.tokens.contains_key(t) && self.tokens.contains_key(u) && t != u ==> self.tokens[t].index
                != self.tokens[u].index
    }

    /// A token is numbered and described, and has not been issued past its cap.
    pub open spec fn record_wf(self, r: TokenRecord) -> bool {
        &&& self.state is Some
        &&& 1 <= r.index <= self.state->0.token_count
        &&& self.infos.contains_key(r.index)
        &&& 0 <= r.minted
        &&& r.minted > 0 ==> within_cap(r.minted as int, self.infos[r.index].max_supply)
    }

    /// A factory that has not been set up.
    pub open spec fn blank() -> Records {
        Records {
            state: None,
            infos: Map::empty(),
            tokens: Map::empty(),
            creator_tokens: Map::empty(),
            fee_split: Map::empty(),
        }
    }

    /// The tokens of a creator, in order of creation.
    pub open spec fn tokens_by(self, creator: u64) -> Seq<u32> {
        if self.creator_tokens.contains_key(creator) {
            self.creator_tokens[creator]
        } else {
            Seq::empty()
        }
    }

    /// The same records with other settings.
    pub open spec fn with_state(self, s: FactoryState) -> Records {
        Records { state: Some(s), ..self }
    }

    /// The same records with the lock set or released.
    pub open spec fn with_lock(self, locked: bool) -> Records {
        self.with_state(FactoryState { locked, ..self.state->0 })
    }

    /// The same records with another record of a token.
    pub open spec fn with_token(self, address: u64, r: TokenRecord) -> Records {
        Records { tokens: self.tokens.insert(address, r), ..self }
    }

    /// The payments by which `from` pays `fee`.
    pub open spec fn fee_payments(self, from: u64, fee: int) -> Seq<Action> {
        let s = self.state->0;
        fees::fee_payments(s.fee_token, from, s.treasury, fee, self.fee_split)
    }

    /// A call that costs a fee is turned away while another is under way, and during a pause.
    pub open spec fn closed_for(self) -> Option<Error> {
        if self.state->0.locked {
            Some(Error::Reentrancy)
        } else if self.state->0.paused {
            Some(Error::ContractPaused)
        } else {
            None
        }
    }

    /// The records once a token has been entered under the next number.
    pub open spec fn entered(self, address: u64, info: TokenInfo, minted: int) -> Records {
        let s = self.state->0;
        let index = (s.token_count + 1) as u32;
        Records {
            state: Some(FactoryState { token_count: index, ..s }),
            infos: self.infos.insert(index, info),
            tokens: self.tokens.insert(
                address,
                TokenRecord { index, owner: info.creator, minted: minted as i128, metadata: None },
            ),
            ..self
        }
    }

    /// The records once a created token has been entered and listed under its creator.
    pub open spec fn created(self, creator: u64, p: BatchTokenParams, address: u64, now: u64) -> Records {
        let entered = self.entered(address, info_of(p, creator, now), p.initial_supply as int);
        Records {
            creator_tokens: self.creator_tokens.insert(
                creator,
                self.tokens_by(creator).push(entered.state->0.token_count),
            ),
            ..entered
        }
    }

    /// The records once the first `n` of some created tokens have been entered.
    pub open spec fn created_all(
        self,
        creator: u64,
        tokens: Seq<BatchTokenParams>,
        addresses: Seq<u64>,
        now: u64,
        n: nat,
    ) -> Records
        decreases n,
    {
        if n == 0 {
            self
        } else {
            let m = (n - 1) as nat;
            self.created_all(creator, tokens, addresses, now, m).created(
                creator,
                tokens[m as int],
                addresses[m as int],
                now,
            )
        }
    }
}

/// `amount` is within a cap, where there is one.
pub open spec fn within_cap(amount: int, cap: Option<i128>) -> bool {
    cap matches Some(c) ==> amount <= c
}

/// The description of a token that has been created as asked.
pub open spec fn info_of(p: BatchTokenParams, creator: u64, now: u64) -> TokenInfo {
    TokenInfo {
        name: p.name,
        symbol: p.symbol,
        decimals: p.decimals,
        creator,
        created_at: now,
        burn_enabled: true,
        max_supply: p.max_supply,
    }
}

/// Why tokens cannot be created, if they cannot.
pub open spec fn creation_refusal(r: Records, tokens: Seq<BatchTokenParams>, fee_payment: int) -> Option<Error> {
    let s = r.state->0;
    let fee = s.base_fee * tokens.len();
    if r.closed_for() is Some {
        r.closed_for()
    } else if tokens.len() == 0 {
        Some(Error::InvalidParameters)
    } else if fee > i128::MAX {
        Some(Error::ArithmeticOverflow)
    } else if fee_payment < fee {
        Some(Error::InsufficientFee)
    } else if token::first_fault(tokens) is Some {
        token::first_fault(tokens)
    } else if s.token_count + tokens.len() > u32::MAX {
        Some(Error::ArithmeticOverflow)
    } else {
        None
    }
}

/// No address is known yet, and none stands twice.
pub open spec fn all_new(r: Records, addresses: Seq<u64>) -> bool {
    &&& forall|i: int| 0 <= i < addresses.len() ==> !r.tokens.contains_key(#[trigger] addresses[i])
    &&& forall|i: int, j: int| 0 <= i < j < addresses.len() ==> addresses[i] != addresses[j]
}

/// Why deployed tokens cannot be entered, if they cannot.
pub open spec fn entry_refusal(r: Records, creator: u64, count: nat, addresses: Seq<u64>) -> Option<Error> {
    if addresses.len() != count || !all_new(r, addresses) {
        Some(Error::InvalidParameters)
    } else if r.state->0.token_count + count > u32::MAX || r.tokens_by(creator).len() + count > u32::MAX {
        Some(Error::ArithmeticOverflow)
    } else {
        None
    }
}

/// The call that issues `amount` of a new token to its creator, or no call
/// where there is nothing to issue.
pub open spec fn issue(token: u64, creator: u64, amount: int) -> Seq<Action> {
    if amount > 0 {
        seq![Action::Mint { token, to: creator, amount: amount as i128 }]
    } else {
        seq![]
    }
}

/// The calls that issue the initial supply of the first `n` of some created tokens.
pub open spec fn issues(creator: u64, tokens: Seq<BatchTokenParams>, addresses: Seq<u64>, n: nat) -> Seq<Action>
    decreases n,
{
    if n == 0 {
        seq![]
    } else {
        let m = (n - 1) as nat;
        issues(creator, tokens, addresses, m) + issue(
            addresses[m as int],
            creator,
            tokens[m as int].initial_supply as int,
        )
    }
}

/// Why a token cannot be minted, if it cannot.
pub open spec fn mint_refusal(r: Records, token: u64, admin: u64, amount: int, fee_payment: int) -> Option<Error> {
    let t = r.tokens[token];
    if r.closed_for() is Some {
        r.closed_for()
    } else if fee_payment < 0 {
        Some(Error::InsufficientFee)
    } else if !r.tokens.contains_key(token) {
        Some(Error::TokenNotFound)
    } else if t.owner != admin {
        Some(Error::Unauthorized)
    } else if amount <= 0 {
        Some(Error::InvalidParameters)
    } else if !within_cap(t.minted + amount, r.infos[t.index].max_supply) {
        Some(Error::MaxSupplyExceeded)
    } else if t.minted + amount > i128::MAX {
        Some(Error::ArithmeticOverflow)
    } else {
        None
    }
}

/// The records once `amount` of a token has been minted.
pub open spec fn minted(r: Records, token: u64, amount: int) -> Records {
    r.with_token(token, TokenRecord { minted: (r.tokens[token].minted + amount) as i128, ..r.tokens[token] })
}

/// Why a token's metadata cannot be set, if it cannot.
pub open spec fn metadata_refusal(r: Records, token: u64, admin: u64, fee_payment: int) -> Option<Error> {
    if r.closed_for() is Some {
        r.closed_for()
    } else if fee_payment < r.state->0.metadata_fee {
        Some(Error::InsufficientFee)
    } else if !r.tokens.contains_key(token) {
        Some(Error::TokenNotFound)
    } else if r.tokens[token].owner != admin {
        Some(Error::Unauthorized)
    } else if r.tokens[token].metadata is Some {
        Some(Error::MetadataAlreadySet)
    } else {
        None
    }
}

/// The records once a token's metadata has been set.
pub open spec fn metadata_set(r: Records, token: u64, uri: String) -> Records {
    r.with_token(token, TokenRecord { metadata: Some(uri), ..r.tokens[token] })
}

/// Why a holder cannot burn, if it cannot.
pub open spec fn burn_refusal(r: Records, token: u64, amount: int, balance: int) -> Option<Error> {
    if amount <= 0 {
        Some(Error::InvalidBurnAmount)
    } else if amount > balance {
        Some(Error::BurnAmountExceedsBalance)
    } else if !r.tokens.contains_key(token) {
        Some(Error::TokenNotFound)
    } else if !r.infos[r.tokens[token].index].burn_enabled {
        Some(Error::BurnNotEnabled)
    } else {
        None
    }
}

/// Why a token's burning cannot be switched, if it cannot.
pub open spec fn switch_refusal(r: Records, token: u64, admin: u64) -> Option<Error> {
    if !r.tokens.contains_key(token) {
        Some(Error::TokenNotFound)
    } else if r.tokens[token].owner != admin {
        Some(Error::Unauthorized)
    } else {
        None
    }
}

/// The records once a token's burning has been switched on or off.
pub open spec fn burn_switched(r: Records, token: u64, enabled: bool) -> Records {
    let index = r.tokens[token].index;
    Records { infos: r.infos.insert(index, TokenInfo { burn_enabled: enabled, ..r.infos[index] }), ..r }
}

/// Why the factory cannot be set up, if it cannot.
pub open spec fn setup_refusal(r: Records, base_fee: int, metadata_fee: int) -> Option<Error> {
    if r.state is Some {
        Some(Error::AlreadyInitialized)
    } else if base_fee < 0 || metadata_fee < 0 {
        Some(Error::InvalidParameters)
    } else {
        None
    }
}

/// The settings of a factory that has just been set up.
pub open spec fn first_state(admin: u64, treasury: u64, fee_token: u64, base_fee: i128, metadata_fee: i128) -> FactoryState {
    FactoryState {
        admin,
        treasury,
        fee_token,
        base_fee,
        metadata_fee,
        paused: false,
        token_count: 0,
        locked: false,
    }
}

/// Only the admin may change settings.
pub open spec fn admin_refusal(r: Records, caller: u64) -> Option<Error> {
    if r.state->0.admin != caller {
        Some(Error::Unauthorized)
    } else {
        None
    }
}

/// Why the office of admin cannot pass on, if it cannot.
pub open spec fn handover_refusal(r: Records, caller: u64, new_admin: u64) -> Option<Error> {
    if admin_refusal(r, caller) is Some {
        admin_refusal(r, caller)
    } else if new_admin == caller {
        Some(Error::InvalidParameters)
    } else {
        None
    }
}

/// The records once the office of admin has passed on.
pub open spec fn handed_over(r: Records, new_admin: u64) -> Records {
    r.with_state(FactoryState { admin: new_admin, ..r.state->0 })
}

/// The records once the factory has been paused or opened again.
pub open spec fn pause_set(r: Records, paused: bool) -> Records {
    r.with_state(FactoryState { paused, ..r.state->0 })
}

/// Why fees cannot be changed, if they cannot.
pub open spec fn fees_refusal(r: Records, caller: u64, base_fee: Option<i128>, metadata_fee: Option<i128>) -> Option<
    Error,
> {
    if admin_refusal(r, caller) is Some {
        admin_refusal(r, caller)
    } else if (base_fee matches Some(f) && f < 0) || (metadata_fee matches Some(f) && f < 0) {
        Some(Error::InvalidParameters)
    } else {
        None
    }
}

/// The records once the given fees have been changed.
pub open spec fn fees_set(r: Records, base_fee: Option<i128>, metadata_fee: Option<i128>) -> Records {
    let s = r.state->0;
    r.with_state(
        FactoryState {
            base_fee: if base_fee is Some { base_fee->0 } else { s.base_fee },
            metadata_fee: if metadata_fee is Some { metadata_fee->0 } else { s.metadata_fee },
            ..s
        },
    )
}

/// Why a fee split cannot be put in force, if it cannot.
pub open spec fn split_refusal(r: Records, caller: u64, fee_split: Map<u64, u32>) -> Option<Error> {
    if admin_refusal(r, caller) is Some {
        admin_refusal(r, caller)
    } else if !split::valid_split(fee_split) {
        Some(Error::InvalidFeeSplit)
    } else {
        None
    }
}

} // verus!
