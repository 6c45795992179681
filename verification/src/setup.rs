//! A factory with round figures, and tokens to go with it, for trying calls out.

use vstd::prelude::*;

use crate::action::Action;
use crate::factory;
use crate::factory::{Factory, TtlExtension};
use crate::state;
use crate::state::{FactoryState, Records};
use crate::token::{BatchTokenParams, TokenInfo, TokenRecord};

verus! {

/// What creating a token costs at first.
pub const BASE_FEE: i128 = 1_000;

/// What setting metadata costs at first.
pub const METADATA_FEE: i128 = 500;

/// The decimals of the tokens that are tried out.
pub const DECIMALS: u32 = 7;

/// A factory that has been set up, who is who in it, and the order to extend
/// the life of its storage.
pub struct Setup {
    pub factory: Factory,
    pub admin: u64,
    pub treasury: u64,
    pub fee_token: u64,
    pub ttl: TtlExtension,
}

impl Setup {
    /// A new factory of `admin`, whose fees go to `treasury` in `fee_token`.
    pub fn new(env: &soroban_sdk::Env, admin: u64, treasury: u64, fee_token: u64) -> (s: Setup)
        ensures
            s.admin == admin,
            s.treasury == treasury,
            s.fee_token == fee_token,
            s.factory@.wf(),
            s.factory@ == Records::blank().with_state(
                state::first_state(admin, treasury, fee_token, BASE_FEE, METADATA_FEE),
            ),
            s.ttl == (TtlExtension { threshold: factory::MIN_TTL, extend_to: factory::MAX_TTL }),
            forall|current: u32, limit: u32|
                factory::MIN_TTL <= limit ==> #[trigger] s.ttl.extended(current as int, limit as int)
                    >= factory::MIN_TTL,
    {
        let mut factory = Factory::new(env);
        let ttl = factory.initialize(admin, treasury, fee_token, BASE_FEE, METADATA_FEE).unwrap();
        Setup { factory, admin, treasury, fee_token, ttl }
    }

    /// The call that gives `recipient` the means to pay fees.
    pub fn fund(&self, recipient: u64, amount: i128) -> (action: Action)
        ensures
            action == (Action::Mint { token: self.fee_token, to: recipient, amount }),
    {
        Action::Mint { token: self.fee_token, to: recipient, amount }
    }

    /// A salt made of one byte.
    pub fn salt(n: u8) -> (salt: [u8; 32])
        ensures
            salt@ == Seq::new(32, |i: int| n),
    {
        [n; 32]
    }

    /// The hash of no code at all.
    pub fn dummy_hash() -> (hash: [u8; 32])
        ensures
            hash@ == Seq::new(32, |i: int| 0u8),
    {
        [0u8; 32]
    }
}

/// A token to be entered without an order and without a fee.
pub struct Seed {
    pub token: u64,
    pub creator: u64,
    pub burn_enabled: bool,
    pub max_supply: Option<i128>,
}

impl Seed {
    /// `info` describes the token.
    pub open spec fn described_by(self, info: TokenInfo) -> bool {
        &&& info.name@ == "T"@
        &&& info.symbol@ == "T"@
        &&& info.decimals == DECIMALS
        &&& info.creator == self.creator
        &&& info.created_at == 0
        &&& info.burn_enabled == self.burn_enabled
        &&& info.max_supply == self.max_supply
    }

    /// Entering the token under the next number leads from `before` to `after`.
    pub open spec fn leads(self, before: Records, after: Records) -> bool {
        let info = after.infos[(before.state->0.token_count + 1) as u32];
        &&& after == before.entered(self.token, info, 0)
        &&& self.described_by(info)
    }

    /// The token stands in `r` under its address and under `index`, as it was entered.
    pub open spec fn stands_in(self, r: Records, index: u32) -> bool {
        &&& r.tokens.contains_key(self.token)
        &&& r.tokens[self.token] == (TokenRecord { index, owner: self.creator, minted: 0, metadata: None })
        &&& r.infos.contains_key(index)
        &&& self.described_by(r.infos[index])
    }
}

/// Enters a token that has been deployed at `token`, owned by `creator`,
/// without an order and without a fee. Returns its number.
pub fn seed_token(s: &mut Setup, token: u64, creator: u64, burn_enabled: bool, max_supply: Option<i128>) -> (index: u32)
    requires
        old(s).factory@.wf(),
        old(s).factory@.state is Some,
        old(s).factory@.state->0.token_count < u32::MAX,
    ensures
        final(s).factory@.wf(),
        final(s).admin == old(s).admin,
        final(s).treasury == old(s).treasury,
        final(s).fee_token == old(s).fee_token,
        final(s).ttl == old(s).ttl,
        index == old(s).factory@.state->0.token_count + 1,
        (Seed { token, creator, burn_enabled, max_supply }).leads(old(s).factory@, final(s).factory@),
        (Seed { token, creator, burn_enabled, max_supply }).stands_in(final(s).factory@, index),
{
    let info = TokenInfo {
        name: "T".to_owned(),
        symbol: "T".to_owned(),
        decimals: DECIMALS,
        creator,
        created_at: 0,
        burn_enabled,
        max_supply,
    };
    s.factory.enter(token, info, 0)
}

/// Enters a token without a cap.
pub fn seed_token_with_burn(s: &mut Setup, token: u64, creator: u64, burn_enabled: bool) -> (index: u32)
    requires
        old(s).factory@.wf(),
        old(s).factory@.state is Some,
        old(s).factory@.state->0.token_count < u32::MAX,
    ensures
        final(s).factory@.wf(),
        final(s).admin == old(s).admin,
        final(s).treasury == old(s).treasury,
        final(s).fee_token == old(s).fee_token,
        final(s).ttl == old(s).ttl,
        index == old(s).factory@.state->0.token_count + 1,
        (Seed { token, creator, burn_enabled, max_supply: None }).leads(old(s).factory@, final(s).factory@),
        (Seed { token, creator, burn_enabled, max_supply: None }).stands_in(final(s).factory@, index),
{
    seed_token(s, token, creator, burn_enabled, None)
}

/// After some tokens at different addresses have been entered, one after
/// another, in a factory that has just been set up, the factory counts just
/// them: each stands under its address and the number of its turn, no other
/// address is known, no other number is described, and nothing else has
/// changed. `history` holds the records before the first token and after each.
pub proof fn law_seeds_are_numbered_in_turn(first: FactoryState, seeds: Seq<Seed>, history: Seq<Records>)
    requires
        first.token_count == 0,
        seeds.len() <= u32::MAX,
        history.len() == seeds.len() + 1,
        history[0] == Records::blank().with_state(first),
        forall|i: int| 0 <= i < seeds.len() ==> (#[trigger] seeds[i]).leads(history[i], history[i + 1]),
        forall|i: int, j: int|
            0 <= i < j < seeds.len() ==> (#[trigger] seeds[i]).token != (#[trigger] seeds[j]).token,
    ensures
        ({
            let r = history.last();
            &&& r.state == Some(FactoryState { token_count: seeds.len() as u32, ..first })
            &&& forall|i: int| 0 <= i < seeds.len() ==> (#[trigger] seeds[i]).stands_in(r, (i + 1) as u32)
            &&& forall|t: u64| #[trigger]
                r.tokens.contains_key(t) ==> exists|i: int| 0 <= i < seeds.len() && (#[trigger] seeds[i]).token == t
            &&& forall|n: u32| #[trigger] r.infos.contains_key(n) <==> 1 <= n <= seeds.len()
            &&& r.creator_tokens == Map::<u64, Seq<u32>>::empty()
            &&& r.fee_split == Map::<u64, u32>::empty()
        }),
    decreases seeds.len(),
{
    let k = seeds.len();
    let r = history.last();
    if k > 0 {
        let fewer = seeds.drop_last();
        let before = history.drop_last();
        let last = seeds[k - 1];
        assert forall|i: int| 0 <= i < fewer.len() implies (#[trigger] fewer[i]).leads(before[i], before[i + 1]) by {
            assert(seeds[i].leads(history[i], history[i + 1]));
        }
        law_seeds_are_numbered_in_turn(first, fewer, before);
        assert(last.leads(history[k - 1], history[k as int]));
        let b = before.last();
        assert(b == history[k - 1]);
        assert(r == history[k as int]);
        let index = k as u32;
        assert(r == b.entered(last.token, r.infos[index], 0));
        assert forall|i: int| 0 <= i < k implies (#[trigger] seeds[i]).stands_in(r, (i + 1) as u32) by {
            if i < k - 1 {
                assert(fewer[i] == seeds[i]);
                assert(fewer[i].stands_in(b, (i + 1) as u32));
                assert(seeds[i].token != last.token);
            }
        }
        assert forall|t: u64| #[trigger] r.tokens.contains_key(t) implies exists|i: int|
            0 <= i < k && (#[trigger] seeds[i]).token == t by {
            if t != last.token {
                assert(b.tokens.contains_key(t));
                let i = choose|i: int| 0 <= i < fewer.len() && (#[trigger] fewer[i]).token == t;
                assert(seeds[i].token == t);
            }
        }
        assert forall|n: u32| #[trigger] r.infos.contains_key(n) <==> 1 <= n <= k by {
            assert(b.infos.contains_key(n) <==> 1 <= n <= k - 1);
        }
    }
}

/// A request for a token without initial supply and without a cap.
pub fn batch_param(n: u8, name: &str, symbol: &str) -> (p: BatchTokenParams)
    ensures
        p.salt@ == Seq::new(32, |i: int| n),
        p.token_wasm_hash@ == Seq::new(32, |i: int| 0u8),
        p.name@ == name@,
        p.symbol@ == symbol@,
        p.decimals == DECIMALS,
        p.initial_supply == 0,
        p.max_supply is None,
{
    BatchTokenParams {
        salt: Setup::salt(n),
        token_wasm_hash: Setup::dummy_hash(),
        name: name.to_owned(),
        symbol: symbol.to_owned(),
        decimals: DECIMALS,
        initial_supply: 0,
        max_supply: None,
    }
}

/// The given requests, as a batch.
pub fn batch_vec(params: &[BatchTokenParams]) -> (v: Vec<BatchTokenParams>)
    ensures
        v@ == params@,
{
    let mut v: Vec<BatchTokenParams> = Vec::new();
    let mut i: usize = 0;
    while i < params.len()
        invariant
            i <= params@.len(),
            v@ == params@.take(i as int),
        decreases params@.len() - i,
    {
        v.push(params[i].clone());
        i += 1;
        proof {
            assert(v@ =~= params@.take(i as int));
        }
    }
    proof {
        assert(params@.take(i as int) =~= params@);
    }
    v
}

} // verus!
