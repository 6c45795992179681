//! Creating tokens: a paid order goes out to be deployed, and what has been
//! deployed is entered.

use vstd::prelude::*;

use crate::action::Action;
use crate::error::Error;
use crate::factory::Factory;
use crate::fees;
use crate::state;
use crate::state::{FactoryState, Records};
use crate::token;
use crate::token::{BatchTokenParams, TokenInfo, TokenRecord};
use crate::token_list::TokenList;

verus! {

broadcast use vstd::std_specs::hash::group_hash_axioms;

/// What an order for tokens says.
pub struct Order {
    pub creator: u64,
    pub payments: Seq<Action>,
    pub tokens: Seq<BatchTokenParams>,
}

/// An order for tokens that the factory has accepted and that waits to be
/// paid and deployed.
pub struct Creation {
    creator: u64,
    payments: Vec<Action>,
    tokens: Vec<BatchTokenParams>,
}

impl View for Creation {
    type V = Order;

    closed spec fn view(&self) -> Order {
        Order { creator: self.creator, payments: self.payments@, tokens: self.tokens@ }
    }
}

impl Creation {
    /// Only tokens that can be created as asked are on order.
    #[verifier::type_invariant]
    spec fn inv(self) -> bool {
        token::first_fault(self.tokens@) is None
    }

    /// Who ordered the tokens.
    pub fn creator(&self) -> (creator: u64)
        ensures
            creator == self@.creator,
    {
        self.creator
    }

    /// The payments that are due.
    pub fn payments(&self) -> (payments: &Vec<Action>)
        ensures
            payments@ == self@.payments,
    {
        &self.payments
    }

    /// The tokens to be deployed.
    pub fn tokens(&self) -> (tokens: &Vec<BatchTokenParams>)
        ensures
            tokens@ == self@.tokens,
            token::first_fault(tokens@) is None,
    {
        proof {
            use_type_invariant(self);
        }
        &self.tokens
    }
}

/// What has become of an order: the numbers of its tokens, and the calls that
/// issue their initial supply.
pub struct Created {
    pub indices: Vec<u32>,
    pub issues: Vec<Action>,
}

/// Entering a new token under the next number keeps the records together.
pub proof fn lemma_entered_wf(r: Records, address: u64, info: TokenInfo, minted: i128)
    requires
        r.wf(),
        r.state is Some,
        r.state->0.token_count < u32::MAX,
        0 <= minted,
        minted > 0 ==> state::within_cap(minted as int, info.max_supply),
    ensures
        r.entered(address, info, minted as int).wf(),
{
    let n = r.entered(address, info, minted as int);
    assert forall|t: u64| #[trigger] n.tokens.contains_key(t) implies n.record_wf(n.tokens[t]) by {
        if t != address {
            assert(r.tokens.contains_key(t));
            assert(r.record_wf(r.tokens[t]));
        }
    }
    assert forall|t: u64, u: u64|
        #![trigger n.tokens.contains_key(t), n.tokens.contains_key(u)]
        n.tokens.contains_key(t) && n.tokens.contains_key(u) && t != u implies n.tokens[t].index
        != n.tokens[u].index by {
        if t != address {
            assert(r.tokens.contains_key(t));
            assert(r.record_wf(r.tokens[t]));
        }
        if u != address {
            assert(r.tokens.contains_key(u));
            assert(r.record_wf(r.tokens[u]));
        }
    }
}

/// Creating tokens one after another numbers them one after another.
pub proof fn lemma_created_all(
    r: Records,
    creator: u64,
    tokens: Seq<BatchTokenParams>,
    addresses: Seq<u64>,
    now: u64,
    n: nat,
)
    requires
        r.state is Some,
        r.state->0.token_count + n <= u32::MAX,
        n <= tokens.len() == addresses.len(),
    ensures
        ({
            let c = r.created_all(creator, tokens, addresses, now, n);
            &&& c.state == Some(
                FactoryState { token_count: (r.state->0.token_count + n) as u32, ..r.state->0 },
            )
            &&& c.tokens_by(creator).len() == r.tokens_by(creator).len() + n
            &&& c.fee_split == r.fee_split
        }),
    decreases n,
{
    if n > 0 {
        lemma_created_all(r, creator, tokens, addresses, now, (n - 1) as nat);
    }
}

impl Factory {
    /// Orders one token for `creator`, who offers `fee_payment`.
    pub fn create_token(
        &mut self,
        creator: u64,
        salt: [u8; 32],
        token_wasm_hash: [u8; 32],
        name: String,
        symbol: String,
        decimals: u32,
        initial_supply: u128,
        fee_payment: i128,
    ) -> (r: Result<Creation, Error>)
        requires
            old(self)@.wf(),
            old(self)@.state is Some,
        ensures
            final(self)@.wf(),
            ({
                let tokens = seq![
                    BatchTokenParams {
                        salt,
                        token_wasm_hash,
                        name,
                        symbol,
                        decimals,
                        initial_supply,
                        max_supply: None,
                    },
                ];
                match r {
                    Err(e) => {
                        &&& state::creation_refusal(old(self)@, tokens, fee_payment as int) == Some(e)
                        &&& final(self)@ == old(self)@
                    },
                    Ok(creation) => {
                        &&& state::creation_refusal(old(self)@, tokens, fee_payment as int) is None
                        &&& final(self)@ == old(self)@.with_lock(true)
                        &&& creation@ == (Order {
                            creator,
                            payments: old(self)@.fee_payments(creator, old(self)@.state->0.base_fee as int),
                            tokens,
                        })
                    },
                }
            }),
    {
        let params = BatchTokenParams {
            salt,
            token_wasm_hash,
            name,
            symbol,
            decimals,
            initial_supply,
            max_supply: None,
        };
        let mut tokens: Vec<BatchTokenParams> = Vec::new();
        tokens.push(params);
        proof {
            assert(tokens@ =~= seq![params]);
            assert(self@.state->0.base_fee * 1 == self@.state->0.base_fee);
        }
        self.create_tokens_batch(creator, tokens, fee_payment)
    }

    /// Orders several tokens for `creator`, who offers `fee_payment` for all of
    /// them: all are ordered, or none.
    pub fn create_tokens_batch(&mut self, creator: u64, tokens: Vec<BatchTokenParams>, fee_payment: i128) -> (r: Result<
        Creation,
        Error,
    >)
        requires
            old(self)@.wf(),
            old(self)@.state is Some,
        ensures
            final(self)@.wf(),
            match r {
                Err(e) => {
                    &&& state::creation_refusal(old(self)@, tokens@, fee_payment as int) == Some(e)
                    &&& final(self)@ == old(self)@
                },
                Ok(creation) => {
                    &&& state::creation_refusal(old(self)@, tokens@, fee_payment as int) is None
                    &&& final(self)@ == old(self)@.with_lock(true)
                    &&& creation@ == (Order {
                        creator,
                        payments: old(self)@.fee_payments(
                            creator,
                            old(self)@.state->0.base_fee * tokens@.len(),
                        ),
                        tokens: tokens@,
                    })
                },
            },
    {
        let mut s = self.get_state();
        if s.locked {
            return Err(Error::Reentrancy);
        }
        if s.paused {
            return Err(Error::ContractPaused);
        }
        let count: usize = tokens.len();
        if count == 0 {
            return Err(Error::InvalidParameters);
        }
        proof {
            assert(0 <= s.base_fee * (count as i128)) by (nonlinear_arith)
                requires
                    0 <= s.base_fee,
                    0 <= count,
            ;
        }
        let fee: i128 = match s.base_fee.checked_mul(count as i128) {
            Some(fee) => fee,
            None => {
                return Err(Error::ArithmeticOverflow);
            },
        };
        if fee_payment < fee {
            return Err(Error::InsufficientFee);
        }
        if let Some(fault) = token::find_fault(&tokens) {
            return Err(fault);
        }
        if count > (u32::MAX - s.token_count) as usize {
            return Err(Error::ArithmeticOverflow);
        }
        let payments = fees::charge(s.fee_token, creator, s.treasury, fee, &self.fee_split);
        s.locked = true;
        self.state = Some(s);
        Ok(Creation { creator, payments, tokens })
    }

    /// Gives an order up that could not be paid or deployed, and releases the
    /// lock that it held.
    pub fn cancel_creation(&mut self, _creation: Creation)
        requires
            old(self)@.wf(),
            old(self)@.state is Some,
        ensures
            final(self)@.wf(),
            final(self)@ == old(self)@.with_lock(false),
    {
        self.release();
    }

    fn release(&mut self)
        requires
            old(self)@.wf(),
            old(self)@.state is Some,
        ensures
            final(self)@.wf(),
            final(self)@ == old(self)@.with_lock(false),
    {
        let mut s = self.get_state();
        s.locked = false;
        self.state = Some(s);
    }

    /// Whether no address is known yet and none stands twice.
    fn check_new(&self, addresses: &Vec<u64>) -> (new: bool)
        ensures
            new == state::all_new(self@, addresses@),
    {
        let mut i: usize = 0;
        while i < addresses.len()
            invariant
                i <= addresses@.len(),
                state::all_new(self@, addresses@.take(i as int)),
            decreases addresses@.len() - i,
        {
            let address: u64 = addresses[i];
            if self.tokens.contains_key(&address) {
                return false;
            }
            let mut j: usize = 0;
            while j < i
                invariant
                    j <= i < addresses@.len(),
                    address == addresses@[i as int],
                    forall|k: int| 0 <= k < j ==> addresses@[k] != address,
                decreases i - j,
            {
                if addresses[j] == address {
                    return false;
                }
                j += 1;
            }
            i += 1;
            proof {
                let before = addresses@.take(i - 1);
                let now = addresses@.take(i as int);
                assert forall|a: int| 0 <= a < now.len() implies !self@.tokens.contains_key(#[trigger] now[a]) by {
                    if a < i - 1 {
                        assert(before[a] == now[a]);
                    }
                }
                assert forall|a: int, b: int| 0 <= a < b < now.len() implies now[a] != now[b] by {
                    if b < i - 1 {
                        assert(before[a] == now[a]);
                        assert(before[b] == now[b]);
                    }
                }
            }
        }
        proof {
            assert(addresses@.take(i as int) =~= addresses@);
        }
        true
    }

    /// Enters the tokens of an order under the addresses at which they have
    /// been deployed, and releases the lock.
    pub fn finish_creation(
        &mut self,
        env: &soroban_sdk::Env,
        creation: Creation,
        addresses: &Vec<u64>,
        created_at: u64,
    ) -> (r: Result<Created, Error>)
        requires
            old(self)@.wf(),
            old(self)@.state is Some,
        ensures
            final(self)@.wf(),
            match r {
                Err(e) => {
                    &&& state::entry_refusal(old(self)@, creation@.creator, creation@.tokens.len(), addresses@) == Some(
                        e,
                    )
                    &&& final(self)@ == old(self)@.with_lock(false)
                },
                Ok(created) => {
                    &&& state::entry_refusal(old(self)@, creation@.creator, creation@.tokens.len(), addresses@) is None
                    &&& final(self)@ == old(self)@.with_lock(false).created_all(
                        creation@.creator,
                        creation@.tokens,
                        addresses@,
                        created_at,
                        addresses@.len(),
                    )
                    &&& created.indices@ == Seq::new(
                        addresses@.len(),
                        |i: int| (old(self)@.state->0.token_count + 1 + i) as u32,
                    )
                    &&& created.issues@ == state::issues(
                        creation@.creator,
                        creation@.tokens,
                        addresses@,
                        addresses@.len(),
                    )
                },
            },
    {
        proof {
            use_type_invariant(&creation);
        }
        self.release();
        let Creation { creator, payments: _, mut tokens } = creation;
        if addresses.len() != tokens.len() || !self.check_new(addresses) {
            return Err(Error::InvalidParameters);
        }
        let count: usize = addresses.len();
        let listed: u32 = match self.creator_tokens.get(&creator) {
            Some(list) => list.len(),
            None => 0,
        };
        let s = self.get_state();
        if count > (u32::MAX - s.token_count) as usize || count > (u32::MAX - listed) as usize {
            return Err(Error::ArithmeticOverflow);
        }
        let ghost start = self@;
        let ghost asked = tokens@;
        let mut indices: Vec<u32> = Vec::new();
        let mut issues: Vec<Action> = Vec::new();
        let mut i: usize = 0;
        while i < count
            invariant
                i <= count == asked.len() == addresses@.len(),
                tokens@ == asked.skip(i as int),
                token::first_fault(asked) is None,
                start.state is Some,
                start.state->0.token_count + count <= u32::MAX,
                start.tokens_by(creator).len() + count <= u32::MAX,
                self@ == start.created_all(creator, asked, addresses@, created_at, i as nat),
                self@.wf(),
                indices@ == Seq::new(i as nat, |k: int| (start.state->0.token_count + 1 + k) as u32),
                issues@ == state::issues(creator, asked, addresses@, i as nat),
            decreases count - i,
        {
            proof {
                token::lemma_no_fault(asked, i as int);
                lemma_created_all(start, creator, asked, addresses@, created_at, i as nat);
            }
            let p = tokens.remove(0);
            let amount: i128 = p.initial_supply as i128;
            if amount > 0 {
                issues.push(Action::Mint { token: addresses[i], to: creator, amount });
            }
            let index = self.enter_created(env, creator, p, addresses[i], created_at);
            indices.push(index);
            i += 1;
            proof {
                assert(tokens@ =~= asked.skip(i as int));
                assert(issues@ =~= state::issues(creator, asked, addresses@, i as nat));
                assert(indices@ =~= Seq::new(i as nat, |k: int| (start.state->0.token_count + 1 + k) as u32));
            }
        }
        Ok(Created { indices, issues })
    }

    /// Enters one created token.
    fn enter_created(&mut self, env: &soroban_sdk::Env, creator: u64, p: BatchTokenParams, address: u64, now: u64) -> (index:
        u32)
        requires
            old(self)@.wf(),
            old(self)@.state is Some,
            old(self)@.state->0.token_count < u32::MAX,
            old(self)@.tokens_by(creator).len() < u32::MAX,
            token::token_fault(p) is None,
        ensures
            final(self)@.wf(),
            final(self)@ == old(self)@.created(creator, p, address, now),
            index == old(self)@.state->0.token_count + 1,
    {
        let minted: i128 = p.initial_supply as i128;
        let info = TokenInfo {
            name: p.name,
            symbol: p.symbol,
            decimals: p.decimals,
            creator,
            created_at: now,
            burn_enabled: true,
            max_supply: p.max_supply,
        };
        let index = self.enter(address, info, minted);
        let mut list = match self.creator_tokens.remove(&creator) {
            Some(list) => list,
            None => TokenList::new(env),
        };
        list.push_back(index);
        self.creator_tokens.insert(creator, list);
        proof {
            assert(self@.creator_tokens =~= old(self)@.created(creator, p, address, now).creator_tokens);
            assert(self@ =~= old(self)@.created(creator, p, address, now));
        }
        index
    }

    /// Enters a token under the next number, owned by its creator.
    pub(crate) fn enter(&mut self, address: u64, info: TokenInfo, minted: i128) -> (index: u32)
        requires
            old(self)@.wf(),
            old(self)@.state is Some,
            old(self)@.state->0.token_count < u32::MAX,
            0 <= minted,
            minted > 0 ==> state::within_cap(minted as int, info.max_supply),
        ensures
            final(self)@.wf(),
            final(self)@ == old(self)@.entered(address, info, minted as int),
            index == old(self)@.state->0.token_count + 1,
    {
        proof {
            lemma_entered_wf(self@, address, info, minted);
        }
        let mut s = self.get_state();
        let index: u32 = s.token_count + 1;
        s.token_count = index;
        self.state = Some(s);
        self.tokens.insert(address, TokenRecord { index, owner: info.creator, minted, metadata: None });
        self.infos.insert(index, info);
        index
    }
}

} // verus!
