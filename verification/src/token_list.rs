//! The running list of the tokens that a creator has made.

use vstd::prelude::*;

verus! {

/// The sequence of `soroban_sdk`.
#[verifier::external_type_specification]
#[verifier::external_body]
#[verifier::reject_recursive_types(T)]
pub struct ExVec<T>(soroban_sdk::Vec<T>);

/// The items that a `soroban_sdk::Vec` holds, in order.
pub uninterp spec fn items_of(v: soroban_sdk::Vec<u32>) -> Seq<u32>;

/// `soroban_sdk::Vec::new` makes a sequence without items.
#[verifier::external_body]
fn items_new(env: &soroban_sdk::Env) -> (v: soroban_sdk::Vec<u32>)
    ensures
        items_of(v) == Seq::<u32>::empty(),
{
    soroban_sdk::Vec::new(env)
}

/// `soroban_sdk::Vec::push_back` adds an item at the end. The host refuses to
/// grow a sequence past `u32::MAX` items.
#[verifier::external_body]
fn items_push_back(v: &mut soroban_sdk::Vec<u32>, item: u32)
    requires
        items_of(*old(v)).len() < u32::MAX,
    ensures
        items_of(*final(v)) == items_of(*old(v)).push(item),
{
    v.push_back(item)
}

/// `soroban_sdk::Vec::len` counts the items; there are never more than a `u32` counts.
#[verifier::external_body]
fn items_len(v: &soroban_sdk::Vec<u32>) -> (len: u32)
    ensures
        len == items_of(*v).len(),
{
    v.len()
}

/// `soroban_sdk::Vec::get` gives the item at a position, if there is one.
#[verifier::external_body]
fn items_get(v: &soroban_sdk::Vec<u32>, i: u32) -> (item: Option<u32>)
    ensures
        item == (if i < items_of(*v).len() { Some(items_of(*v)[i as int]) } else { None }),
{
    v.get(i)
}

/// Numbers of tokens, in the order in which they were added.
pub struct TokenList {
    items: soroban_sdk::Vec<u32>,
}

impl View for TokenList {
    type V = Seq<u32>;

    closed spec fn view(&self) -> Seq<u32> {
        items_of(self.items)
    }
}

impl TokenList {
    /// A list without tokens.
    pub fn new(env: &soroban_sdk::Env) -> (list: Self)
        ensures
            list@ == Seq::<u32>::empty(),
    {
        TokenList { items: items_new(env) }
    }

    /// Adds a token at the end.
    pub fn push_back(&mut self, index: u32)
        requires
            old(self)@.len() < u32::MAX,
        ensures
            final(self)@ == old(self)@.push(index),
    {
        items_push_back(&mut self.items, index);
    }

    /// How many tokens are listed.
    pub fn len(&self) -> (len: u32)
        ensures
            len == self@.len(),
    {
        items_len(&self.items)
    }

    /// The token at a position, if there is one.
    pub fn get(&self, i: u32) -> (index: Option<u32>)
        ensures
            index == (if i < self@.len() { Some(self@[i as int]) } else { None }),
    {
        items_get(&self.items, i)
    }

    /// All listed tokens.
    pub fn to_vec(&self) -> (indices: Vec<u32>)
        ensures
            indices@ == self@,
    {
        let len: u32 = self.len();
        let mut indices: Vec<u32> = Vec::new();
        let mut i: u32 = 0;
        while i < len
            invariant
                i <= len == self@.len(),
                indices@ == self@.take(i as int),
            decreases len - i,
        {
            if let Some(index) = self.get(i) {
                indices.push(index);
            }
            i += 1;
            proof {
                assert(indices@ =~= self@.take(i as int));
            }
        }
        proof {
            assert(self@.take(i as int) =~= self@);
        }
        indices
    }
}

} // verus!
