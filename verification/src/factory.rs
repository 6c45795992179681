//! The factory: every call that it answers.

use std::collections::HashMap;

use vstd::prelude::*;

use crate::action::Action;
use crate::error::Error;
use crate::fees;
use crate::split;
use crate::split::FeeSplit;
use crate::state;
use crate::state::{FactoryState, Records};
use crate::token::{TokenInfo, TokenRecord};
use crate::token_list::TokenList;

verus! {

broadcast use vstd::std_specs::hash::group_hash_axioms;

/// The factory's storage lives at least this many ledgers on.
pub const MIN_TTL: u32 = 120_960;

/// How far the life of the factory's storage is extended, in ledgers.
pub const MAX_TTL: u32 = 518_400;

/// An order to extend the life of the factory's storage to `extend_to`
/// ledgers, where it is no more than `threshold`.
#[derive(Clone, Copy, Debug, PartialEq, Eq, Structural)]
pub struct TtlExtension {
    pub threshold: u32,
    pub extend_to: u32,
}

impl TtlExtension {
    /// How long storage lives once the order has been carried out, where it
    /// would have lived `current` ledgers and the host lets it live `limit`.
    pub open spec fn extended(self, current: int, limit: int) -> int {
        let offered = if self.extend_to <= limit { self.extend_to as int } else { limit };
        if current <= self.threshold && offered > current {
            offered
        } else {
            current
        }
    }
}

/// A token factory. Accounts and contracts are named by number.
pub struct Factory {
    /// Settings and counters, once the factory has been set up.
    pub state: Option<FactoryState>,
    /// Descriptions of tokens by number.
    pub infos: HashMap<u32, TokenInfo>,
    /// Records of tokens by address.
    pub tokens: HashMap<u64, TokenRecord>,
    /// Numbers of tokens by creator.
    pub creator_tokens: HashMap<u64, TokenList>,
    /// Who gets the fees.
    pub fee_split: FeeSplit,
}

impl View for Factory {
    type V = Records;

    open spec fn view(&self) -> Records {
        Records {
            state: self.state,
            infos: self.infos@,
            tokens: self.tokens@,
            creator_tokens: self.creator_tokens@.map_values(|list: TokenList| list@),
            fee_split: self.fee_split@,
        }
    }
}

impl Factory {
    /// A factory that has not been set up.
    pub fn new(env: &soroban_sdk::Env) -> (factory: Self)
        ensures
            factory@ == Records::blank(),
            factory@.wf(),
    {
        let factory = Factory {
            state: None,
            infos: HashMap::new(),
            tokens: HashMap::new(),
            creator_tokens: HashMap::new(),
            fee_split: FeeSplit::new(env),
        };
        proof {
            assert(factory@ =~= Records::blank());
            split::lemma_empty_split(factory@.fee_split);
        }
        factory
    }

    /// Sets the factory up, once and for all, and orders the life of its
    /// storage to be extended.
    pub fn initialize(&mut self, admin: u64, treasury: u64, fee_token: u64, base_fee: i128, metadata_fee: i128) -> (r:
        Result<TtlExtension, Error>)
        requires
            old(self)@.wf(),
        ensures
            final(self)@.wf(),
            match r {
                Err(e) => {
                    &&& state::setup_refusal(old(self)@, base_fee as int, metadata_fee as int) == Some(e)
                    &&& final(self)@ == old(self)@
                },
                Ok(ttl) => {
                    &&& state::setup_refusal(old(self)@, base_fee as int, metadata_fee as int) is None
                    &&& final(self)@ == old(self)@.with_state(
                        state::first_state(admin, treasury, fee_token, base_fee, metadata_fee),
                    )
                    &&& ttl == (TtlExtension { threshold: MIN_TTL, extend_to: MAX_TTL })
                },
            },
    {
        if self.state.is_some() {
            return Err(Error::AlreadyInitialized);
        }
        if base_fee < 0 || metadata_fee < 0 {
            return Err(Error::InvalidParameters);
        }
        self.state = Some(
            FactoryState {
                admin,
                treasury,
                fee_token,
                base_fee,
                metadata_fee,
                paused: false,
                token_count: 0,
                locked: false,
            },
        );
        Ok(TtlExtension { threshold: MIN_TTL, extend_to: MAX_TTL })
    }

    /// The settings and counters.
    pub fn get_state(&self) -> (s: FactoryState)
        requires
            self@.state is Some,
        ensures
            self@.state == Some(s),
    {
        self.state.unwrap()
    }

    /// Mints `amount` of a token to `to`; the owner of the token pays `fee_payment`.
    pub fn mint_tokens(&mut self, token: u64, admin: u64, to: u64, amount: i128, fee_payment: i128) -> (r: Result<
        Vec<Action>,
        Error,
    >)
        requires
            old(self)@.wf(),
            old(self)@.state is Some,
        ensures
            final(self)@.wf(),
            match r {
                Err(e) => {
                    &&& state::mint_refusal(old(self)@, token, admin, amount as int, fee_payment as int) == Some(e)
                    &&& final(self)@ == old(self)@
                },
                Ok(actions) => {
                    &&& state::mint_refusal(old(self)@, token, admin, amount as int, fee_payment as int) is None
                    &&& final(self)@ == state::minted(old(self)@, token, amount as int)
                    &&& actions@ == old(self)@.fee_payments(admin, fee_payment as int).push(
                        Action::Mint { token, to, amount },
                    )
                },
            },
    {
        let s = self.get_state();
        if s.locked {
            return Err(Error::Reentrancy);
        }
        if s.paused {
            return Err(Error::ContractPaused);
        }
        if fee_payment < 0 {
            return Err(Error::InsufficientFee);
        }
        let (index, owner, minted): (u32, u64, i128) = match self.tokens.get(&token) {
            Some(record) => (record.index, record.owner, record.minted),
            None => {
                return Err(Error::TokenNotFound);
            },
        };
        let max_supply = match self.infos.get(&index) {
            Some(info) => info.max_supply,
            None => {
                return Err(Error::TokenNotFound);
            },
        };
        if owner != admin {
            return Err(Error::Unauthorized);
        }
        if amount <= 0 {
            return Err(Error::InvalidParameters);
        }
        let sum: i128 = match (minted.checked_add(amount), max_supply) {
            (Some(sum), Some(cap)) => {
                if sum > cap {
                    return Err(Error::MaxSupplyExceeded);
                }
                sum
            },
            (None, Some(_)) => {
                return Err(Error::MaxSupplyExceeded);
            },
            (Some(sum), None) => sum,
            (None, None) => {
                return Err(Error::ArithmeticOverflow);
            },
        };
        let mut actions = fees::charge(s.fee_token, admin, s.treasury, fee_payment, &self.fee_split);
        actions.push(Action::Mint { token, to, amount });
        if let Some(mut record) = self.tokens.remove(&token) {
            record.minted = sum;
            self.tokens.insert(token, record);
        }
        proof {
            assert(self@ =~= state::minted(old(self)@, token, amount as int));
        }
        Ok(actions)
    }

    /// Sets where a token's metadata can be found, once and for all; the owner
    /// of the token pays the metadata fee out of `fee_payment`.
    pub fn set_metadata(&mut self, token: u64, admin: u64, metadata_uri: String, fee_payment: i128) -> (r: Result<
        Vec<Action>,
        Error,
    >)
        requires
            old(self)@.wf(),
            old(self)@.state is Some,
        ensures
            final(self)@.wf(),
            match r {
                Err(e) => {
                    &&& state::metadata_refusal(old(self)@, token, admin, fee_payment as int) == Some(e)
                    &&& final(self)@ == old(self)@
                },
                Ok(actions) => {
                    &&& state::metadata_refusal(old(self)@, token, admin, fee_payment as int) is None
                    &&& final(self)@ == state::metadata_set(old(self)@, token, metadata_uri)
                    &&& actions@ == old(self)@.fee_payments(admin, old(self)@.state->0.metadata_fee as int)
                },
            },
    {
        let s = self.get_state();
        if s.locked {
            return Err(Error::Reentrancy);
        }
        if s.paused {
            return Err(Error::ContractPaused);
        }
        if fee_payment < s.metadata_fee {
            return Err(Error::InsufficientFee);
        }
        match self.tokens.get(&token) {
            Some(record) => {
                if record.owner != admin {
                    return Err(Error::Unauthorized);
                }
                if record.metadata.is_some() {
                    return Err(Error::MetadataAlreadySet);
                }
            },
            None => {
                return Err(Error::TokenNotFound);
            },
        }
        let actions = fees::charge(s.fee_token, admin, s.treasury, s.metadata_fee, &self.fee_split);
        if let Some(mut record) = self.tokens.remove(&token) {
            record.metadata = Some(metadata_uri);
            self.tokens.insert(token, record);
        }
        proof {
            assert(self@ =~= state::metadata_set(old(self)@, token, metadata_uri));
        }
        Ok(actions)
    }

    /// Burns `amount` of a token that `from` holds; `balance` is what the
    /// token's contract says that `from` has. A pause does not stand in the way.
    pub fn burn(&self, token: u64, from: u64, amount: i128, balance: i128) -> (r: Result<Action, Error>)
        requires
            self@.wf(),
        ensures
            match r {
                Err(e) => state::burn_refusal(self@, token, amount as int, balance as int) == Some(e),
                Ok(action) => {
                    &&& state::burn_refusal(self@, token, amount as int, balance as int) is None
                    &&& action == (Action::Burn { token, from, amount })
                },
            },
    {
        if amount <= 0 {
            return Err(Error::InvalidBurnAmount);
        }
        if amount > balance {
            return Err(Error::BurnAmountExceedsBalance);
        }
        let index: u32 = match self.tokens.get(&token) {
            Some(record) => record.index,
            None => {
                return Err(Error::TokenNotFound);
            },
        };
        match self.infos.get(&index) {
            Some(info) => {
                if !info.burn_enabled {
                    return Err(Error::BurnNotEnabled);
                }
            },
            None => {
                return Err(Error::TokenNotFound);
            },
        }
        Ok(Action::Burn { token, from, amount })
    }

    /// Switches on or off that holders may burn a token.
    pub fn set_burn_enabled(&mut self, token: u64, admin: u64, enabled: bool) -> (r: Result<(), Error>)
        requires
            old(self)@.wf(),
        ensures
            final(self)@.wf(),
            match r {
                Err(e) => {
                    &&& state::switch_refusal(old(self)@, token, admin) == Some(e)
                    &&& final(self)@ == old(self)@
                },
                Ok(()) => {
                    &&& state::switch_refusal(old(self)@, token, admin) is None
                    &&& final(self)@ == state::burn_switched(old(self)@, token, enabled)
                },
            },
    {
        let (index, owner): (u32, u64) = match self.tokens.get(&token) {
            Some(record) => (record.index, record.owner),
            None => {
                return Err(Error::TokenNotFound);
            },
        };
        if owner != admin {
            return Err(Error::Unauthorized);
        }
        if let Some(mut info) = self.infos.remove(&index) {
            info.burn_enabled = enabled;
            self.infos.insert(index, info);
        }
        proof {
            assert(self@ =~= state::burn_switched(old(self)@, token, enabled));
        }
        Ok(())
    }

    /// Stops all calls that cost a fee.
    pub fn pause(&mut self, admin: u64) -> (r: Result<(), Error>)
        requires
            old(self)@.wf(),
            old(self)@.state is Some,
        ensures
            final(self)@.wf(),
            match r {
                Err(e) => state::admin_refusal(old(self)@, admin) == Some(e) && final(self)@ == old(self)@,
                Ok(()) => {
                    &&& state::admin_refusal(old(self)@, admin) is None
                    &&& final(self)@ == state::pause_set(old(self)@, true)
                },
            },
    {
        self.set_paused(admin, true)
    }

    /// Opens a paused factory again.
    pub fn unpause(&mut self, admin: u64) -> (r: Result<(), Error>)
        requires
            old(self)@.wf(),
            old(self)@.state is Some,
        ensures
            final(self)@.wf(),
            match r {
                Err(e) => state::admin_refusal(old(self)@, admin) == Some(e) && final(self)@ == old(self)@,
                Ok(()) => {
                    &&& state::admin_refusal(old(self)@, admin) is None
                    &&& final(self)@ == state::pause_set(old(self)@, false)
                },
            },
    {
        self.set_paused(admin, false)
    }

    fn set_paused(&mut self, admin: u64, paused: bool) -> (r: Result<(), Error>)
        requires
            old(self)@.wf(),
            old(self)@.state is Some,
        ensures
            final(self)@.wf(),
            match r {
                Err(e) => state::admin_refusal(old(self)@, admin) == Some(e) && final(self)@ == old(self)@,
                Ok(()) => {
                    &&& state::admin_refusal(old(self)@, admin) is None
                    &&& final(self)@ == state::pause_set(old(self)@, paused)
                },
            },
    {
        let mut s = self.get_state();
        if s.admin != admin {
            return Err(Error::Unauthorized);
        }
        s.paused = paused;
        self.state = Some(s);
        Ok(())
    }

    /// Changes the fees that are given; the others stay.
    pub fn update_fees(&mut self, admin: u64, base_fee: Option<i128>, metadata_fee: Option<i128>) -> (r: Result<
        (),
        Error,
    >)
        requires
            old(self)@.wf(),
            old(self)@.state is Some,
        ensures
            final(self)@.wf(),
            match r {
                Err(e) => {
                    &&& state::fees_refusal(old(self)@, admin, base_fee, metadata_fee) == Some(e)
                    &&& final(self)@ == old(self)@
                },
                Ok(()) => {
                    &&& state::fees_refusal(old(self)@, admin, base_fee, metadata_fee) is None
                    &&& final(self)@ == state::fees_set(old(self)@, base_fee, metadata_fee)
                },
            },
    {
        let mut s = self.get_state();
        if s.admin != admin {
            return Err(Error::Unauthorized);
        }
        if let Some(fee) = base_fee {
            if fee < 0 {
                return Err(Error::InvalidParameters);
            }
            s.base_fee = fee;
        }
        if let Some(fee) = metadata_fee {
            if fee < 0 {
                return Err(Error::InvalidParameters);
            }
            s.metadata_fee = fee;
        }
        self.state = Some(s);
        Ok(())
    }

    /// Passes the office of admin on to someone else.
    pub fn transfer_admin(&mut self, admin: u64, new_admin: u64) -> (r: Result<(), Error>)
        requires
            old(self)@.wf(),
            old(self)@.state is Some,
        ensures
            final(self)@.wf(),
            match r {
                Err(e) => {
                    &&& state::handover_refusal(old(self)@, admin, new_admin) == Some(e)
                    &&& final(self)@ == old(self)@
                },
                Ok(()) => {
                    &&& state::handover_refusal(old(self)@, admin, new_admin) is None
                    &&& final(self)@ == state::handed_over(old(self)@, new_admin)
                },
            },
    {
        let mut s = self.get_state();
        if s.admin != admin {
            return Err(Error::Unauthorized);
        }
        if new_admin == admin {
            return Err(Error::InvalidParameters);
        }
        s.admin = new_admin;
        self.state = Some(s);
        Ok(())
    }

    /// The same as `transfer_admin`.
    pub fn update_admin(&mut self, admin: u64, new_admin: u64) -> (r: Result<(), Error>)
        requires
            old(self)@.wf(),
            old(self)@.state is Some,
        ensures
            final(self)@.wf(),
            match r {
                Err(e) => {
                    &&& state::handover_refusal(old(self)@, admin, new_admin) == Some(e)
                    &&& final(self)@ == old(self)@
                },
                Ok(()) => {
                    &&& state::handover_refusal(old(self)@, admin, new_admin) is None
                    &&& final(self)@ == state::handed_over(old(self)@, new_admin)
                },
            },
    {
        self.transfer_admin(admin, new_admin)
    }

    /// Grants the admin, and nobody else, that the factory's code is replaced;
    /// returns the hash of the code to install.
    pub fn upgrade(&self, admin: u64, new_wasm_hash: [u8; 32]) -> (r: Result<[u8; 32], Error>)
        requires
            self@.state is Some,
        ensures
            match r {
                Err(e) => state::admin_refusal(self@, admin) == Some(e),
                Ok(hash) => state::admin_refusal(self@, admin) is None && hash == new_wasm_hash,
            },
    {
        let s = self.get_state();
        if s.admin != admin {
            return Err(Error::Unauthorized);
        }
        Ok(new_wasm_hash)
    }

    /// Puts a fee split in force; one without recipients leaves all fees to
    /// the treasury.
    pub fn set_fee_split(&mut self, admin: u64, fee_split: FeeSplit) -> (r: Result<(), Error>)
        requires
            old(self)@.wf(),
            old(self)@.state is Some,
        ensures
            final(self)@.wf(),
            match r {
                Err(e) => {
                    &&& state::split_refusal(old(self)@, admin, fee_split@) == Some(e)
                    &&& final(self)@ == old(self)@
                },
                Ok(()) => {
                    &&& state::split_refusal(old(self)@, admin, fee_split@) is None
                    &&& final(self)@ == (Records { fee_split: fee_split@, ..old(self)@ })
                },
            },
    {
        let s = self.get_state();
        if s.admin != admin {
            return Err(Error::Unauthorized);
        }
        if !fee_split.is_valid() {
            return Err(Error::InvalidFeeSplit);
        }
        self.fee_split = fee_split;
        Ok(())
    }

    /// The fee split in force.
    pub fn get_fee_split(&self) -> (fee_split: &FeeSplit)
        ensures
            fee_split@ == self@.fee_split,
    {
        &self.fee_split
    }

    /// The description of a token, by its number.
    pub fn get_token_info(&self, index: u32) -> (r: Result<&TokenInfo, Error>)
        ensures
            match r {
                Err(e) => !self@.infos.contains_key(index) && e == Error::TokenNotFound,
                Ok(info) => self@.infos.contains_key(index) && *info == self@.infos[index],
            },
    {
        match self.infos.get(&index) {
            Some(info) => Ok(info),
            None => Err(Error::TokenNotFound),
        }
    }

    /// The numbers of a creator's tokens, in order of creation.
    pub fn get_tokens_by_creator(&self, creator: u64) -> (indices: Vec<u32>)
        ensures
            indices@ == self@.tokens_by(creator),
    {
        match self.creator_tokens.get(&creator) {
            Some(list) => list.to_vec(),
            None => Vec::new(),
        }
    }
}

} // verus!
