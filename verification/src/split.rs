//! How collected fees are divided: recipients and their parts of ten thousand.

use vstd::prelude::*;

verus! {

/// The parts of a split that is in force add up to this many.
pub const WHOLE: u32 = 10_000;

/// The host that `soroban_sdk` collections live on. It meters its calls: when
/// its budget is used up it ends the whole invocation, as when memory runs out.
#[verifier::external_type_specification]
#[verifier::external_body]
pub struct ExEnv(soroban_sdk::Env);

/// The key-ordered map of `soroban_sdk`.
#[verifier::external_type_specification]
#[verifier::external_body]
#[verifier::reject_recursive_types(K)]
#[verifier::reject_recursive_types(V)]
pub struct ExMap<K, V>(soroban_sdk::Map<K, V>);

/// The entries that a `soroban_sdk::Map` holds.
pub uninterp spec fn shares_of(m: soroban_sdk::Map<u64, u32>) -> Map<u64, u32>;

/// `soroban_sdk::Map::new` makes a map without entries.
#[verifier::external_body]
fn shares_new(env: &soroban_sdk::Env) -> (m: soroban_sdk::Map<u64, u32>)
    ensures
        shares_of(m).dom().is_empty(),
{
    soroban_sdk::Map::new(env)
}

/// `soroban_sdk::Map::set` enters a value under a key, in place of the one
/// that stood there. The host refuses to grow a map past `u32::MAX` entries.
#[verifier::external_body]
fn shares_set(m: &mut soroban_sdk::Map<u64, u32>, key: u64, value: u32)
    requires
        shares_of(*old(m)).dom().len() < u32::MAX || shares_of(*old(m)).contains_key(key),
    ensures
        shares_of(*final(m)) == shares_of(*old(m)).insert(key, value),
{
    m.set(key, value)
}

/// `soroban_sdk::Map::get` gives the value under a key, if there is one.
#[verifier::external_body]
fn shares_get(m: &soroban_sdk::Map<u64, u32>, key: u64) -> (value: Option<u32>)
    ensures
        value == (if shares_of(*m).contains_key(key) { Some(shares_of(*m)[key]) } else { None }),
{
    m.get(key)
}

/// `soroban_sdk::Map::is_empty` tells whether there are no entries.
#[verifier::external_body]
fn shares_is_empty(m: &soroban_sdk::Map<u64, u32>) -> (empty: bool)
    ensures
        empty == shares_of(*m).dom().is_empty(),
{
    m.is_empty()
}

/// `soroban_sdk::Map::iter` walks all entries once, in ascending order of key.
#[verifier::external_body]
fn shares_entries(m: &soroban_sdk::Map<u64, u32>) -> (entries: Vec<(u64, u32)>)
    ensures
        is_listing(entries@, shares_of(*m)),
{
    m.iter().collect()
}

/// `s` holds each entry of `m` once, in ascending order of key, and nothing else.
pub open spec fn is_listing(s: Seq<(u64, u32)>, m: Map<u64, u32>) -> bool {
    &&& forall|i: int, j: int| 0 <= i < j < s.len() ==> (#[trigger] s[i]).0 < (#[trigger] s[j]).0
    &&& forall|i: int|
        0 <= i < s.len() ==> m.contains_key((#[trigger] s[i]).0) && m[s[i].0] == s[i].1
    &&& forall|k: u64| #[trigger] m.contains_key(k) ==> exists|i: int| 0 <= i < s.len() && (#[trigger] s[i]).0 == k
}

/// The entries of `m` in ascending order of key.
pub open spec fn listing(m: Map<u64, u32>) -> Seq<(u64, u32)> {
    choose|s: Seq<(u64, u32)>| is_listing(s, m)
}

/// All parts of a list of entries together.
pub open spec fn total_parts(s: Seq<(u64, u32)>) -> int
    decreases s.len(),
{
    if s.len() == 0 {
        0
    } else {
        total_parts(s.drop_last()) + s.last().1
    }
}

/// A split that may be in force: none at all, or one whose parts make up the whole.
pub open spec fn valid_split(m: Map<u64, u32>) -> bool {
    &&& is_listing(listing(m), m)
    &&& m.dom().is_empty() || total_parts(listing(m)) == WHOLE
}

/// The split that results when the pairs are entered one after another.
pub open spec fn entered(pairs: Seq<(u64, u32)>) -> Map<u64, u32>
    decreases pairs.len(),
{
    if pairs.len() == 0 {
        Map::empty()
    } else {
        entered(pairs.drop_last()).insert(pairs.last().0, pairs.last().1)
    }
}

proof fn lemma_same_entry(a: Seq<(u64, u32)>, b: Seq<(u64, u32)>, m: Map<u64, u32>, i: int)
    requires
        is_listing(a, m),
        is_listing(b, m),
        0 <= i < a.len(),
    ensures
        i < b.len(),
        a[i] == b[i],
    decreases i,
{
    assert forall|j: int| 0 <= j < i implies j < b.len() && a[j] == b[j] by {
        lemma_same_entry(a, b, m, j);
    }
    let k = a[i].0;
    assert(m.contains_key(k));
    let j = choose|j: int| 0 <= j < b.len() && (#[trigger] b[j]).0 == k;
    if j < i {
        assert(a[j] == b[j]);
    }
    let k2 = b[i].0;
    assert(m.contains_key(k2));
    let j2 = choose|j2: int| 0 <= j2 < a.len() && (#[trigger] a[j2]).0 == k2;
    if j2 < i {
        assert(a[j2] == b[j2]);
    }
}

/// A map has one listing only.
pub proof fn lemma_listing_unique(s: Seq<(u64, u32)>, m: Map<u64, u32>)
    requires
        is_listing(s, m),
    ensures
        listing(m) == s,
        is_listing(listing(m), m),
{
    let t = listing(m);
    assert(is_listing(t, m));
    assert forall|i: int| 0 <= i < s.len() implies i < t.len() && s[i] == t[i] by {
        lemma_same_entry(s, t, m, i);
    }
    if s.len() < t.len() {
        lemma_same_entry(t, s, m, s.len() as int);
    } else if t.len() < s.len() {
        lemma_same_entry(s, t, m, t.len() as int);
    }
    assert(s =~= t);
}

/// The listing of a map without entries is empty, so such a map is a valid split.
pub proof fn lemma_empty_split(m: Map<u64, u32>)
    requires
        m.dom().is_empty(),
    ensures
        listing(m) == Seq::<(u64, u32)>::empty(),
        valid_split(m),
{
    let e = Seq::<(u64, u32)>::empty();
    assert(is_listing(e, m));
    lemma_listing_unique(e, m);
}

/// A recipient has an entry where some pair names it, and its parts are those
/// of such a pair.
proof fn lemma_entered_pairs(pairs: Seq<(u64, u32)>, k: u64)
    ensures
        entered(pairs).contains_key(k) ==> pairs.contains((k, entered(pairs)[k])),
        forall|i: int| 0 <= i < pairs.len() && (#[trigger] pairs[i]).0 == k ==> entered(pairs).contains_key(k),
    decreases pairs.len(),
{
    if pairs.len() > 0 {
        let fewer = pairs.drop_last();
        lemma_entered_pairs(fewer, k);
        if pairs.last().0 == k {
            assert(pairs[pairs.len() - 1] == (k, pairs.last().1));
        } else {
            if entered(fewer).contains_key(k) {
                let i = choose|i: int| 0 <= i < fewer.len() && fewer[i] == (k, entered(fewer)[k]);
                assert(pairs[i] == (k, entered(pairs)[k]));
            }
            assert forall|i: int| 0 <= i < pairs.len() && (#[trigger] pairs[i]).0 == k implies entered(
                pairs,
            ).contains_key(k) by {
                assert(fewer[i] == pairs[i]);
            }
        }
    }
}

/// Where no recipient is named twice, the order of the pairs does not matter.
pub proof fn law_order_of_pairs(p: Seq<(u64, u32)>, q: Seq<(u64, u32)>)
    requires
        forall|i: int, j: int| 0 <= i < j < p.len() ==> (#[trigger] p[i]).0 != (#[trigger] p[j]).0,
        p.to_multiset() == q.to_multiset(),
    ensures
        entered(p) == entered(q),
{
    broadcast use vstd::seq_lib::group_to_multiset_ensures;

    assert forall|x: (u64, u32)| p.contains(x) == q.contains(x) by {
        assert(p.contains(x) <==> p.to_multiset().count(x) > 0);
        assert(q.contains(x) <==> q.to_multiset().count(x) > 0);
    }
    assert forall|k: u64|
        #![trigger entered(p).dom().contains(k)]
        #![trigger entered(q).dom().contains(k)]
        #![trigger entered(p)[k]]
        entered(p).dom().contains(k) == entered(q).dom().contains(k) && (entered(p).dom().contains(k) ==> entered(
            p,
        )[k] == entered(q)[k]) by {
        lemma_entered_pairs(p, k);
        lemma_entered_pairs(q, k);
        if entered(p).contains_key(k) {
            let x = (k, entered(p)[k]);
            assert(q.contains(x));
            let j = choose|j: int| 0 <= j < q.len() && q[j] == x;
            assert(q[j].0 == k);
        }
        if entered(q).contains_key(k) {
            let y = (k, entered(q)[k]);
            assert(p.contains(y));
            let j = choose|j: int| 0 <= j < p.len() && p[j] == y;
            assert(p[j].0 == k);
            let i = choose|i: int| 0 <= i < p.len() && p[i] == (k, entered(p)[k]);
            assert(p[i].0 == k);
        }
    }
    assert(entered(p) =~= entered(q));
}

/// The split of two joined lists of pairs is that of the first, overridden by
/// that of the second.
pub proof fn law_joined_pairs(p: Seq<(u64, u32)>, q: Seq<(u64, u32)>)
    ensures
        entered(p + q) == entered(p).union_prefer_right(entered(q)),
    decreases q.len(),
{
    if q.len() == 0 {
        assert(p + q =~= p);
    } else {
        law_joined_pairs(p, q.drop_last());
        assert((p + q).drop_last() =~= p + q.drop_last());
        assert((p + q).last() == q.last());
    }
    assert(entered(p + q) =~= entered(p).union_prefer_right(entered(q)));
}

proof fn lemma_entered_size(pairs: Seq<(u64, u32)>)
    ensures
        entered(pairs).dom().finite(),
        entered(pairs).dom().len() <= pairs.len(),
    decreases pairs.len(),
{
    if pairs.len() > 0 {
        lemma_entered_size(pairs.drop_last());
    }
}

/// Recipients of fees, each with its parts of ten thousand.
pub struct FeeSplit {
    shares: soroban_sdk::Map<u64, u32>,
}

impl View for FeeSplit {
    type V = Map<u64, u32>;

    closed spec fn view(&self) -> Map<u64, u32> {
        shares_of(self.shares)
    }
}

impl FeeSplit {
    /// A split without recipients.
    pub fn new(env: &soroban_sdk::Env) -> (split: Self)
        ensures
            split@ == Map::<u64, u32>::empty(),
    {
        let split = FeeSplit { shares: shares_new(env) };
        assert(split@ =~= Map::<u64, u32>::empty());
        split
    }

    /// Gives `recipient` that many parts, in place of what it had.
    pub fn set(&mut self, recipient: u64, parts: u32)
        requires
            old(self)@.dom().len() < u32::MAX || old(self)@.contains_key(recipient),
        ensures
            final(self)@ == old(self)@.insert(recipient, parts),
    {
        shares_set(&mut self.shares, recipient, parts);
    }

    /// The parts of `recipient`, if it has any entry.
    pub fn get(&self, recipient: u64) -> (parts: Option<u32>)
        ensures
            parts == (if self@.contains_key(recipient) { Some(self@[recipient]) } else { None }),
    {
        shares_get(&self.shares, recipient)
    }

    /// Whether no recipient has an entry.
    pub fn is_empty(&self) -> (empty: bool)
        ensures
            empty == (self@ == Map::<u64, u32>::empty()),
    {
        let empty = shares_is_empty(&self.shares);
        proof {
            if empty {
                assert(self@ =~= Map::<u64, u32>::empty());
            }
        }
        empty
    }

    /// All entries, in ascending order of recipient.
    pub fn entries(&self) -> (entries: Vec<(u64, u32)>)
        ensures
            entries@ == listing(self@),
            is_listing(entries@, self@),
    {
        let entries = shares_entries(&self.shares);
        proof {
            lemma_listing_unique(entries@, self@);
        }
        entries
    }

    /// Whether the split may be put in force.
    pub fn is_valid(&self) -> (valid: bool)
        ensures
            valid == valid_split(self@),
    {
        let entries = self.entries();
        let mut total: u128 = 0;
        let mut i: usize = 0;
        while i < entries.len()
            invariant
                i <= entries@.len(),
                total == total_parts(entries@.take(i as int)),
                total <= i * (u32::MAX as u128),
            decreases entries@.len() - i,
        {
            proof {
                assert(entries@.take(i + 1).drop_last() =~= entries@.take(i as int));
            }
            total = total + entries[i].1 as u128;
            i += 1;
        }
        proof {
            assert(entries@.take(i as int) =~= entries@);
            if self@.dom().is_empty() {
                assert(self@ =~= Map::<u64, u32>::empty());
            }
        }
        self.is_empty() || total == WHOLE as u128
    }
}

/// A split with the given recipients and parts; a recipient that is named
/// again gets the parts named last.
pub fn make_split(env: &soroban_sdk::Env, pairs: &[(u64, u32)]) -> (split: FeeSplit)
    requires
        pairs@.len() <= u32::MAX,
    ensures
        split@ == entered(pairs@),
{
    let mut split = FeeSplit::new(env);
    let mut i: usize = 0;
    while i < pairs.len()
        invariant
            i <= pairs@.len() <= u32::MAX,
            split@ == entered(pairs@.take(i as int)),
        decreases pairs@.len() - i,
    {
        let (recipient, parts) = pairs[i];
        proof {
            lemma_entered_size(pairs@.take(i as int));
            assert(pairs@.take(i + 1).drop_last() =~= pairs@.take(i as int));
        }
        split.set(recipient, parts);
        i += 1;
    }
    proof {
        assert(pairs@.take(i as int) =~= pairs@);
    }
    split
}

proof fn lemma_parts_fold(s: Seq<(u64, u32)>, step: spec_fn(int, (u64, u32)) -> int)
    requires
        forall|sum: int, e: (u64, u32)| #[trigger] step(sum, e) == sum + e.1,
    ensures
        total_parts(s) == s.fold_left(0, step),
    decreases s.len(),
{
    if s.len() > 0 {
        lemma_parts_fold(s.drop_last(), step);
    }
}

/// A split may be in force where it has no entries or where their parts add
/// up to ten thousand, and not otherwise. `entries` lists the split.
pub proof fn law_parts_make_up_the_whole(m: Map<u64, u32>, entries: Seq<(u64, u32)>)
    requires
        forall|i: int, j: int| 0 <= i < j < entries.len() ==> (#[trigger] entries[i]).0 < (#[trigger] entries[j]).0,
        forall|i: int|
            0 <= i < entries.len() ==> m.contains_key((#[trigger] entries[i]).0) && m[entries[i].0] == entries[i].1,
        forall|k: u64| #[trigger]
            m.contains_key(k) ==> exists|i: int| 0 <= i < entries.len() && (#[trigger] entries[i]).0 == k,
    ensures
        valid_split(m) <==> (entries.len() == 0 || entries.fold_left(0, |sum: int, e: (u64, u32)| sum + e.1)
            == 10_000),
        listing(m) == entries,
{
    assert(is_listing(entries, m));
    lemma_listing_unique(entries, m);
    lemma_parts_fold(entries, |sum: int, e: (u64, u32)| sum + e.1);
    if entries.len() > 0 {
        assert(m.dom().contains(entries[0].0));
    } else {
        assert(m.dom() =~= Set::<u64>::empty());
    }
}

/// A recipient has the parts that the last pair naming it gives, and a
/// recipient that no pair names has none.
pub proof fn law_last_pair_counts(pairs: Seq<(u64, u32)>, at: int, unnamed: u64)
    requires
        0 <= at < pairs.len(),
        forall|i: int| at < i < pairs.len() ==> (#[trigger] pairs[i]).0 != pairs[at].0,
        forall|i: int| 0 <= i < pairs.len() ==> (#[trigger] pairs[i]).0 != unnamed,
    ensures
        entered(pairs).contains_key(pairs[at].0),
        entered(pairs)[pairs[at].0] == pairs[at].1,
        !entered(pairs).contains_key(unnamed),
    decreases pairs.len(),
{
    let fewer = pairs.drop_last();
    lemma_entered_pairs(pairs, unnamed);
    if entered(pairs).contains_key(unnamed) {
        let i = choose|i: int| 0 <= i < pairs.len() && pairs[i] == (unnamed, entered(pairs)[unnamed]);
        assert(pairs[i].0 == unnamed);
    }
    if at < pairs.len() - 1 {
        assert forall|i: int| at < i < fewer.len() implies (#[trigger] fewer[i]).0 != fewer[at].0 by {
            assert(fewer[i] == pairs[i]);
        }
        assert forall|i: int| 0 <= i < fewer.len() implies (#[trigger] fewer[i]).0 != unnamed by {
            assert(fewer[i] == pairs[i]);
        }
        law_last_pair_counts(fewer, at, unnamed);
        assert(pairs[pairs.len() - 1].0 != pairs[at].0);
    }
}

} // verus!
