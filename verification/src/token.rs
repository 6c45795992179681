//! What is recorded of a token, and what a new one is asked to be.

use vstd::prelude::*;

use crate::error::Error;

verus! {

/// No token has more decimals than this.
pub const MAX_DECIMALS: u32 = 18;

/// The description of a token, found under its number.
#[derive(Debug)]
pub struct TokenInfo {
    pub name: String,
    pub symbol: String,
    pub decimals: u32,
    pub creator: u64,
    pub created_at: u64,
    pub burn_enabled: bool,
    pub max_supply: Option<i128>,
}

/// What is kept under a token's address.
#[derive(Debug)]
pub struct TokenRecord {
    /// The number under which the description stands.
    pub index: u32,
    /// Who may mint the token and change its settings.
    pub owner: u64,
    /// What the factory has issued so far.
    pub minted: i128,
    /// Where the token's metadata can be found, once it has been set.
    pub metadata: Option<String>,
}

/// What a token to be created is asked to be.
#[derive(Debug)]
pub struct BatchTokenParams {
    pub salt: [u8; 32],
    pub token_wasm_hash: [u8; 32],
    pub name: String,
    pub symbol: String,
    pub decimals: u32,
    pub initial_supply: u128,
    pub max_supply: Option<i128>,
}

/// Why a token cannot be created as asked, if it cannot.
pub open spec fn token_fault(p: BatchTokenParams) -> Option<Error> {
    if p.name@.len() == 0 || p.symbol@.len() == 0 {
        Some(Error::InvalidParameters)
    } else if p.decimals > MAX_DECIMALS {
        Some(Error::InvalidDecimals)
    } else if p.initial_supply > i128::MAX {
        Some(Error::ArithmeticOverflow)
    } else if p.max_supply matches Some(cap) && p.initial_supply > cap {
        Some(Error::MaxSupplyExceeded)
    } else {
        None
    }
}

/// The fault of the first token that has one.
pub open spec fn first_fault(tokens: Seq<BatchTokenParams>) -> Option<Error>
    decreases tokens.len(),
{
    if tokens.len() == 0 {
        None
    } else if first_fault(tokens.drop_last()) is Some {
        first_fault(tokens.drop_last())
    } else {
        token_fault(tokens.last())
    }
}

/// Where a list has no fault, none of its tokens has one.
pub proof fn lemma_no_fault(tokens: Seq<BatchTokenParams>, i: int)
    requires
        first_fault(tokens) is None,
        0 <= i < tokens.len(),
    ensures
        token_fault(tokens[i]) is None,
    decreases tokens.len(),
{
    if i < tokens.len() - 1 {
        assert(tokens.drop_last()[i] == tokens[i]);
        lemma_no_fault(tokens.drop_last(), i);
    }
}

/// A fault anywhere in the front part of a list is the fault of the list.
proof fn lemma_fault_stays(tokens: Seq<BatchTokenParams>, i: int)
    requires
        0 <= i <= tokens.len(),
        first_fault(tokens.take(i)) is Some,
    ensures
        first_fault(tokens) == first_fault(tokens.take(i)),
    decreases tokens.len(),
{
    if i == tokens.len() {
        assert(tokens.take(i) =~= tokens);
    } else {
        assert(tokens.drop_last().take(i) =~= tokens.take(i));
        lemma_fault_stays(tokens.drop_last(), i);
    }
}

impl BatchTokenParams {
    /// Why the token cannot be created as asked, if it cannot.
    pub fn fault(&self) -> (fault: Option<Error>)
        ensures
            fault == token_fault(*self),
    {
        if self.name.as_str().is_empty() || self.symbol.as_str().is_empty() {
            return Some(Error::InvalidParameters);
        }
        if self.decimals > MAX_DECIMALS {
            return Some(Error::InvalidDecimals);
        }
        if self.initial_supply > i128::MAX as u128 {
            return Some(Error::ArithmeticOverflow);
        }
        match self.max_supply {
            Some(cap) if self.initial_supply as i128 > cap => Some(Error::MaxSupplyExceeded),
            _ => None,
        }
    }
}

impl Clone for BatchTokenParams {
    fn clone(&self) -> (copy: Self)
        ensures
            copy == *self,
    {
        BatchTokenParams {
            salt: self.salt,
            token_wasm_hash: self.token_wasm_hash,
            name: self.name.clone(),
            symbol: self.symbol.clone(),
            decimals: self.decimals,
            initial_supply: self.initial_supply,
            max_supply: self.max_supply,
        }
    }
}

/// The fault of the first token that has one.
pub fn find_fault(tokens: &Vec<BatchTokenParams>) -> (fault: Option<Error>)
    ensures
        fault == first_fault(tokens@),
{
    let mut i: usize = 0;
    while i < tokens.len()
        invariant
            i <= tokens@.len(),
            first_fault(tokens@.take(i as int)) is None,
        decreases tokens@.len() - i,
    {
        proof {
            assert(tokens@.take(i + 1).drop_last() =~= tokens@.take(i as int));
        }
        let fault = tokens[i].fault();
        if fault.is_some() {
            proof {
                lemma_fault_stays(tokens@, i + 1);
            }
            return fault;
        }
        i += 1;
    }
    proof {
        assert(tokens@.take(i as int) =~= tokens@);
    }
    None
}

/// A token can be created just where it has a name and a symbol, at most
/// eighteen decimals, and an initial supply that can be counted and is within
/// the cap, if one is asked for.
pub proof fn law_what_a_token_may_be(p: BatchTokenParams)
    ensures
        token_fault(p) is None <==> {
            &&& 0 < p.name@.len()
            &&& 0 < p.symbol@.len()
            &&& p.decimals <= 18
            &&& p.initial_supply <= i128::MAX
            &&& p.max_supply is Some ==> p.initial_supply <= p.max_supply->0
        },
{
}

/// Each shortcoming of a token is told by its own error, where no graver one
/// comes before it.
pub proof fn law_shortcomings_are_told(p: BatchTokenParams)
    ensures
        token_fault(p) == Some(Error::InvalidParameters) <==> p.name@.len() == 0 || p.symbol@.len() == 0,
        0 < p.name@.len() && 0 < p.symbol@.len() ==> {
            &&& token_fault(p) == Some(Error::InvalidDecimals) <==> p.decimals > 18
            &&& p.decimals <= 18 ==> (token_fault(p) == Some(Error::ArithmeticOverflow) <==> p.initial_supply
                > i128::MAX)
            &&& p.decimals <= 18 && p.initial_supply <= i128::MAX ==> (token_fault(p) == Some(
                Error::MaxSupplyExceeded,
            ) <==> p.max_supply is Some && p.initial_supply > p.max_supply->0)
        },
{
}

/// The fault of a list is that of the token at `i`, where none before it has one.
pub proof fn law_first_fault_is_told(tokens: Seq<BatchTokenParams>, i: int)
    requires
        0 <= i < tokens.len(),
        forall|j: int| 0 <= j < i ==> token_fault(#[trigger] tokens[j]) is None,
        token_fault(tokens[i]) is Some,
    ensures
        first_fault(tokens) == token_fault(tokens[i]),
{
    lemma_all_good(tokens.take(i));
    assert(tokens.take(i + 1).drop_last() =~= tokens.take(i));
    lemma_fault_stays(tokens, i + 1);
}

/// A list of tokens without fault has none.
pub proof fn lemma_all_good(tokens: Seq<BatchTokenParams>)
    requires
        forall|j: int| 0 <= j < tokens.len() ==> token_fault(#[trigger] tokens[j]) is None,
    ensures
        first_fault(tokens) is None,
    decreases tokens.len(),
{
    if tokens.len() > 0 {
        assert(token_fault(tokens[tokens.len() - 1]) is None);
        assert forall|j: int| 0 <= j < tokens.drop_last().len() implies token_fault(
            #[trigger] tokens.drop_last()[j],
        ) is None by {
            assert(tokens.drop_last()[j] == tokens[j]);
        }
        lemma_all_good(tokens.drop_last());
    }
}

} // verus!
