//! Charging a fee: who is paid what out of it.

use vstd::arithmetic::div_mod::{lemma_fundamental_div_mod, lemma_hoist_over_denominator};
use vstd::arithmetic::mul::{lemma_mul_is_distributive_add, lemma_mul_nonnegative};
use vstd::prelude::*;

use crate::action;
use crate::action::Action;
use crate::split;
use crate::split::FeeSplit;

verus! {

/// What `parts` of ten thousand of `fee` come to, rounded down.
pub open spec fn share(fee: int, parts: int) -> int {
    fee * parts / (split::WHOLE as int)
}

/// What the recipients in `entries` get of `fee` altogether.
pub open spec fn distributed(fee: int, entries: Seq<(u64, u32)>) -> int
    decreases entries.len(),
{
    if entries.len() == 0 {
        0
    } else {
        distributed(fee, entries.drop_last()) + share(fee, entries.last().1 as int)
    }
}

/// A transfer of `amount`, or no call where there is nothing to move.
pub open spec fn payment(token: u64, from: u64, to: u64, amount: int) -> Seq<Action> {
    if amount > 0 {
        seq![Action::Transfer { token, from, to, amount: amount as i128 }]
    } else {
        seq![]
    }
}

/// The payments to the recipients in `entries`, in their order.
pub open spec fn share_payments(token: u64, from: u64, fee: int, entries: Seq<(u64, u32)>) -> Seq<Action>
    decreases entries.len(),
{
    if entries.len() == 0 {
        seq![]
    } else {
        share_payments(token, from, fee, entries.drop_last()) + payment(
            token,
            from,
            entries.last().0,
            share(fee, entries.last().1 as int),
        )
    }
}

/// The payments by which `from` pays `fee`: each recipient of the split its
/// share, and the treasury what is left.
pub open spec fn fee_payments(token: u64, from: u64, treasury: u64, fee: int, recipients: Map<u64, u32>) -> Seq<
    Action,
> {
    let entries = split::listing(recipients);
    share_payments(token, from, fee, entries) + payment(token, from, treasury, fee - distributed(fee, entries))
}

/// What `who` is to get out of `fee`.
pub open spec fn due(fee: int, treasury: u64, recipients: Map<u64, u32>, who: u64) -> int {
    (if recipients.contains_key(who) { share(fee, recipients[who] as int) } else { 0 }) + (if who == treasury {
        fee - distributed(fee, split::listing(recipients))
    } else {
        0
    })
}

proof fn lemma_share_bounds(fee: int, parts: int)
    requires
        0 <= fee,
        0 <= parts,
    ensures
        0 <= share(fee, parts),
        share(fee, parts) * (split::WHOLE as int) <= fee * parts,
{
    lemma_mul_nonnegative(fee, parts);
    lemma_fundamental_div_mod(fee * parts, split::WHOLE as int);
    assert(0 <= fee * parts ==> 0 <= fee * parts / 10_000);
}

/// The recipients get no more than their parts of the fee.
pub proof fn lemma_distributed_bounds(fee: int, entries: Seq<(u64, u32)>)
    requires
        0 <= fee,
    ensures
        0 <= distributed(fee, entries),
        distributed(fee, entries) * (split::WHOLE as int) <= fee * split::total_parts(entries),
        0 <= split::total_parts(entries),
    decreases entries.len(),
{
    if entries.len() == 0 {
        assert(fee * 0 == 0);
    } else {
        let parts = entries.last().1 as int;
        lemma_distributed_bounds(fee, entries.drop_last());
        lemma_share_bounds(fee, parts);
        lemma_mul_is_distributive_add(fee, split::total_parts(entries.drop_last()), parts);
    }
}

/// The recipients of a valid split together get no more than the fee.
pub proof fn lemma_distributed_within_fee(fee: int, entries: Seq<(u64, u32)>)
    requires
        0 <= fee,
        split::total_parts(entries) <= split::WHOLE,
    ensures
        0 <= distributed(fee, entries) <= fee,
{
    lemma_distributed_bounds(fee, entries);
    assert(fee * split::total_parts(entries) <= fee * (split::WHOLE as int)) by (nonlinear_arith)
        requires
            0 <= fee,
            split::total_parts(entries) <= split::WHOLE as int,
    ;
}

/// Leaving out entries at the end leaves no more parts.
proof fn lemma_prefix_parts(entries: Seq<(u64, u32)>, i: int)
    requires
        0 <= i <= entries.len(),
    ensures
        0 <= split::total_parts(entries.take(i)) <= split::total_parts(entries),
    decreases entries.len(),
{
    lemma_distributed_bounds(0, entries.take(i));
    if i == entries.len() {
        assert(entries.take(i) =~= entries);
    } else {
        assert(entries.drop_last().take(i) =~= entries.take(i));
        lemma_prefix_parts(entries.drop_last(), i);
    }
}

/// `parts` of ten thousand of `fee`, rounded down.
pub fn compute_share(fee: i128, parts: u32) -> (amount: i128)
    requires
        0 <= fee,
        parts <= split::WHOLE,
    ensures
        amount == share(fee as int, parts as int),
        0 <= amount <= fee,
{
    let whole: i128 = split::WHOLE as i128;
    let parts: i128 = parts as i128;
    let wholes: i128 = fee / whole;
    let rest: i128 = fee % whole;
    proof {
        lemma_fundamental_div_mod(fee as int, whole as int);
        assert(wholes * parts <= wholes * whole) by (nonlinear_arith)
            requires
                0 <= wholes,
                0 <= parts <= whole,
        ;
        assert(0 <= wholes * parts) by (nonlinear_arith)
            requires
                0 <= wholes,
                0 <= parts,
        ;
        assert(0 <= rest * parts <= rest * whole) by (nonlinear_arith)
            requires
                0 <= rest,
                0 <= parts <= whole,
        ;
        assert(fee * parts == rest * parts + (wholes * parts) * whole) by (nonlinear_arith)
            requires
                fee == whole * wholes + rest,
        ;
        lemma_hoist_over_denominator(rest * parts, wholes * parts, whole as nat);
    }
    wholes * parts + rest * parts / whole
}

/// The payments by which `from` pays `fee` in `token`.
pub fn charge(token: u64, from: u64, treasury: u64, fee: i128, recipients: &FeeSplit) -> (payments: Vec<Action>)
    requires
        0 <= fee,
        split::valid_split(recipients@),
    ensures
        payments@ == fee_payments(token, from, treasury, fee as int, recipients@),
{
    let entries = recipients.entries();
    let mut payments: Vec<Action> = Vec::new();
    let mut left: i128 = fee;
    let mut i: usize = 0;
    proof {
        if recipients@.dom().is_empty() {
            split::lemma_empty_split(recipients@);
        }
    }
    while i < entries.len()
        invariant
            0 <= fee,
            i <= entries@.len(),
            split::total_parts(entries@) <= split::WHOLE,
            left == fee - distributed(fee as int, entries@.take(i as int)),
            payments@ == share_payments(token, from, fee as int, entries@.take(i as int)),
        decreases entries@.len() - i,
    {
        let (to, parts) = entries[i];
        proof {
            assert(entries@.take(i + 1).drop_last() =~= entries@.take(i as int));
            lemma_prefix_parts(entries@, i as int);
            lemma_prefix_parts(entries@, i + 1);
            lemma_distributed_within_fee(fee as int, entries@.take(i as int));
            lemma_distributed_within_fee(fee as int, entries@.take(i + 1));
        }
        let amount = compute_share(fee, parts);
        if amount > 0 {
            payments.push(Action::Transfer { token, from, to, amount });
        }
        left = left - amount;
        i += 1;
        proof {
            assert(payments@ =~= share_payments(token, from, fee as int, entries@.take(i as int)));
        }
    }
    proof {
        assert(entries@.take(i as int) =~= entries@);
        lemma_distributed_within_fee(fee as int, entries@);
    }
    if left > 0 {
        payments.push(Action::Transfer { token, from, to: treasury, amount: left });
    }
    proof {
        assert(payments@ =~= fee_payments(token, from, treasury, fee as int, recipients@));
    }
    payments
}

/// What `who` gets by its entries in a list.
spec fn share_in(fee: int, entries: Seq<(u64, u32)>, who: u64) -> int
    decreases entries.len(),
{
    if entries.len() == 0 {
        0
    } else {
        share_in(fee, entries.drop_last(), who) + (if entries.last().0 == who {
            share(fee, entries.last().1 as int)
        } else {
            0
        })
    }
}

proof fn lemma_share_in_absent(fee: int, entries: Seq<(u64, u32)>, who: u64)
    requires
        forall|i: int| 0 <= i < entries.len() ==> (#[trigger] entries[i]).0 != who,
    ensures
        share_in(fee, entries, who) == 0,
    decreases entries.len(),
{
    if entries.len() > 0 {
        assert forall|i: int| 0 <= i < entries.drop_last().len() implies (#[trigger] entries.drop_last()[i]).0
            != who by {
            assert(entries.drop_last()[i] == entries[i]);
        }
        assert(entries.last() == entries[entries.len() - 1]);
        lemma_share_in_absent(fee, entries.drop_last(), who);
    }
}

proof fn lemma_share_in_present(fee: int, entries: Seq<(u64, u32)>, at: int)
    requires
        0 <= at < entries.len(),
        forall|i: int, j: int| 0 <= i < j < entries.len() ==> (#[trigger] entries[i]).0 < (#[trigger] entries[j]).0,
    ensures
        share_in(fee, entries, entries[at].0) == share(fee, entries[at].1 as int),
    decreases entries.len(),
{
    let shorter = entries.drop_last();
    assert(entries.last() == entries[entries.len() - 1]);
    assert forall|i: int, j: int| 0 <= i < j < shorter.len() implies (#[trigger] shorter[i]).0 < (
    #[trigger] shorter[j]).0 by {
        assert(shorter[i] == entries[i]);
        assert(shorter[j] == entries[j]);
    }
    if at == entries.len() - 1 {
        assert forall|i: int| 0 <= i < shorter.len() implies (#[trigger] shorter[i]).0 != entries[at].0 by {
            assert(shorter[i] == entries[i]);
        }
        lemma_share_in_absent(fee, shorter, entries[at].0);
    } else {
        assert(shorter[at] == entries[at]);
        lemma_share_in_present(fee, shorter, at);
    }
}

proof fn lemma_share_in_listing(fee: int, recipients: Map<u64, u32>, who: u64)
    requires
        split::is_listing(split::listing(recipients), recipients),
    ensures
        share_in(fee, split::listing(recipients), who) == (if recipients.contains_key(who) {
            share(fee, recipients[who] as int)
        } else {
            0
        }),
{
    let entries = split::listing(recipients);
    if recipients.contains_key(who) {
        let at = choose|i: int| 0 <= i < entries.len() && (#[trigger] entries[i]).0 == who;
        lemma_share_in_present(fee, entries, at);
    } else {
        lemma_share_in_absent(fee, entries, who);
    }
}

proof fn lemma_payment_effect(token: u64, from: u64, to: u64, amount: int, who: u64)
    requires
        0 <= amount <= i128::MAX,
    ensures
        action::net_change(payment(token, from, to, amount), token, who) == (if to == who {
            amount
        } else {
            0
        }) - (if from == who { amount } else { 0 }),
        amount_moved(payment(token, from, to, amount)) == amount,
{
    let p = payment(token, from, to, amount);
    reveal_with_fuel(action::net_change, 2);
    reveal_with_fuel(amount_moved, 2);
    if amount > 0 {
        assert(p.drop_last() =~= Seq::<Action>::empty());
        assert(p.last() == Action::Transfer { token, from, to, amount: amount as i128 });
    }
}

proof fn lemma_share_payments_effect(token: u64, from: u64, fee: int, entries: Seq<(u64, u32)>, who: u64)
    requires
        0 <= fee <= i128::MAX,
        split::total_parts(entries) <= split::WHOLE,
    ensures
        action::net_change(share_payments(token, from, fee, entries), token, who) == share_in(fee, entries, who) - (
        if from == who { distributed(fee, entries) } else { 0 }),
        amount_moved(share_payments(token, from, fee, entries)) == distributed(fee, entries),
    decreases entries.len(),
{
    if entries.len() > 0 {
        let shorter = entries.drop_last();
        let amount = share(fee, entries.last().1 as int);
        lemma_distributed_within_fee(fee, entries);
        lemma_distributed_bounds(fee, shorter);
        lemma_share_bounds(fee, entries.last().1 as int);
        lemma_share_payments_effect(token, from, fee, shorter, who);
        lemma_payment_effect(token, from, entries.last().0, amount, who);
        action::lemma_net_change_concat(
            share_payments(token, from, fee, shorter),
            payment(token, from, entries.last().0, amount),
            token,
            who,
        );
        lemma_moved_concat(
            share_payments(token, from, fee, shorter),
            payment(token, from, entries.last().0, amount),
        );
    }
}

/// All that the transfers among `actions` move.
pub open spec fn amount_moved(actions: Seq<Action>) -> int
    decreases actions.len(),
{
    if actions.len() == 0 {
        0
    } else {
        amount_moved(actions.drop_last()) + (match actions.last() {
            Action::Transfer { amount, .. } => amount as int,
            _ => 0,
        })
    }
}

proof fn lemma_moved_concat(a: Seq<Action>, b: Seq<Action>)
    ensures
        amount_moved(a + b) == amount_moved(a) + amount_moved(b),
    decreases b.len(),
{
    if b.len() == 0 {
        assert(a + b =~= a);
    } else {
        assert((a + b).drop_last() =~= a + b.drop_last());
        lemma_moved_concat(a, b.drop_last());
    }
}

/// Paying a fee takes exactly the fee from the payer and gives everyone
/// exactly what is due.
pub proof fn law_fee_reaches_recipients(
    token: u64,
    from: u64,
    treasury: u64,
    fee: i128,
    recipients: Map<u64, u32>,
    who: u64,
)
    requires
        0 <= fee,
        split::valid_split(recipients),
    ensures
        action::net_change(fee_payments(token, from, treasury, fee as int, recipients), token, who) == due(
            fee as int,
            treasury,
            recipients,
            who,
        ) - (if who == from { fee as int } else { 0 }),
{
    let entries = split::listing(recipients);
    let left = fee - distributed(fee as int, entries);
    if recipients.dom().is_empty() {
        split::lemma_empty_split(recipients);
    }
    lemma_distributed_within_fee(fee as int, entries);
    lemma_share_payments_effect(token, from, fee as int, entries, who);
    lemma_share_in_listing(fee as int, recipients, who);
    lemma_payment_effect(token, from, treasury, left, who);
    action::lemma_net_change_concat(
        share_payments(token, from, fee as int, entries),
        payment(token, from, treasury, left),
        token,
        who,
    );
}

/// Nothing of a fee is lost: the payments add up to it.
pub proof fn law_fee_paid_in_full(token: u64, from: u64, treasury: u64, fee: i128, recipients: Map<u64, u32>)
    requires
        0 <= fee,
        split::valid_split(recipients),
    ensures
        amount_moved(fee_payments(token, from, treasury, fee as int, recipients)) == fee,
{
    let entries = split::listing(recipients);
    let left = fee - distributed(fee as int, entries);
    if recipients.dom().is_empty() {
        split::lemma_empty_split(recipients);
    }
    lemma_distributed_within_fee(fee as int, entries);
    lemma_share_payments_effect(token, from, fee as int, entries, from);
    lemma_payment_effect(token, from, treasury, left, from);
    lemma_moved_concat(share_payments(token, from, fee as int, entries), payment(token, from, treasury, left));
}

/// Without a split the treasury gets the whole fee and nobody else anything.
pub proof fn law_no_split_pays_treasury(fee: i128, treasury: u64, recipients: Map<u64, u32>, who: u64)
    requires
        0 <= fee,
        recipients.dom().is_empty(),
    ensures
        due(fee as int, treasury, recipients, who) == (if who == treasury { fee as int } else { 0 }),
{
    split::lemma_empty_split(recipients);
}

proof fn lemma_distributed_floor(fee: int, entries: Seq<(u64, u32)>)
    requires
        0 <= fee,
        entries.len() > 0,
    ensures
        fee * split::total_parts(entries) < (distributed(fee, entries) + entries.len()) * (split::WHOLE as int),
    decreases entries.len(),
{
    let whole = split::WHOLE as int;
    let shorter = entries.drop_last();
    let parts = entries.last().1 as int;
    let given = distributed(fee, shorter);
    let own = share(fee, parts);
    lemma_fundamental_div_mod(fee * parts, whole);
    assert(fee * parts < (own + 1) * whole) by (nonlinear_arith)
        requires
            fee * parts == whole * own + fee * parts % whole,
            fee * parts % whole < whole,
    ;
    assert(fee * split::total_parts(shorter) <= (given + shorter.len()) * whole) by {
        if shorter.len() > 0 {
            lemma_distributed_floor(fee, shorter);
        } else {
            assert(fee * 0 == 0);
        }
    }
    assert(fee * (split::total_parts(shorter) + parts) < (given + own + (shorter.len() + 1)) * whole) by (nonlinear_arith)
        requires
            fee * parts < (own + 1) * whole,
            fee * split::total_parts(shorter) <= (given + shorter.len()) * whole,
    ;
}

/// Rounding leaves the treasury no less than its own share, and on top of
/// that less than one unit for each recipient.
pub proof fn law_remainder_goes_to_treasury(fee: i128, treasury: u64, recipients: Map<u64, u32>)
    requires
        0 <= fee,
        split::valid_split(recipients),
        !recipients.dom().is_empty(),
    ensures
        ({
            let own = if recipients.contains_key(treasury) { share(fee as int, recipients[treasury] as int) } else { 0 };
            own <= due(fee as int, treasury, recipients, treasury) < own + split::listing(recipients).len()
        }),
{
    let entries = split::listing(recipients);
    if entries.len() == 0 {
        assert(recipients.dom() =~= Set::<u64>::empty());
    }
    lemma_distributed_within_fee(fee as int, entries);
    lemma_distributed_floor(fee as int, entries);
}

/// A recipient other than the treasury gets its parts of the fee, rounded down.
pub proof fn law_recipient_gets_share(fee: i128, treasury: u64, recipients: Map<u64, u32>, who: u64)
    requires
        recipients.contains_key(who),
        who != treasury,
    ensures
        due(fee as int, treasury, recipients, who) == fee * recipients[who] / 10_000,
{
}

proof fn lemma_share_payments_alone(token: u64, from: u64, fee: int, entries: Seq<(u64, u32)>, other: u64, who: u64)
    requires
        other != token,
    ensures
        action::net_change(share_payments(token, from, fee, entries), other, who) == 0,
    decreases entries.len(),
{
    if entries.len() > 0 {
        let shorter = entries.drop_last();
        let last = payment(token, from, entries.last().0, share(fee, entries.last().1 as int));
        lemma_share_payments_alone(token, from, fee, shorter, other, who);
        lemma_payment_alone(token, from, entries.last().0, share(fee, entries.last().1 as int), other, who);
        action::lemma_net_change_concat(share_payments(token, from, fee, shorter), last, other, who);
    }
}

proof fn lemma_payment_alone(token: u64, from: u64, to: u64, amount: int, other: u64, who: u64)
    requires
        other != token,
    ensures
        action::net_change(payment(token, from, to, amount), other, who) == 0,
{
    reveal_with_fuel(action::net_change, 2);
    if amount > 0 {
        assert(payment(token, from, to, amount).drop_last() =~= Seq::<Action>::empty());
    }
}

/// Paying a fee moves the fee token only.
pub proof fn law_fee_moves_nothing_else(
    token: u64,
    from: u64,
    treasury: u64,
    fee: i128,
    recipients: Map<u64, u32>,
    other: u64,
    who: u64,
)
    requires
        other != token,
    ensures
        action::net_change(fee_payments(token, from, treasury, fee as int, recipients), other, who) == 0,
{
    let entries = split::listing(recipients);
    let left = fee - distributed(fee as int, entries);
    lemma_share_payments_alone(token, from, fee as int, entries, other, who);
    lemma_payment_alone(token, from, treasury, left, other, who);
    action::lemma_net_change_concat(
        share_payments(token, from, fee as int, entries),
        payment(token, from, treasury, left),
        other,
        who,
    );
}

proof fn lemma_rest(fee: int, entries: Seq<(u64, u32)>, apart: u64, step: spec_fn(int, (u64, u32)) -> int)
    requires
        forall|sum: int, e: (u64, u32)| #[trigger]
            step(sum, e) == sum + (if e.0 == apart { 0 } else { share(fee, e.1 as int) }),
    ensures
        distributed(fee, entries) == entries.fold_left(0, step) + share_in(fee, entries, apart),
    decreases entries.len(),
{
    if entries.len() > 0 {
        lemma_rest(fee, entries.drop_last(), apart, step);
    }
}

/// The treasury gets what is left of the fee once every other recipient has
/// had its parts of ten thousand, rounded down; where it pays itself, it loses
/// the fee. `entries` lists the split.
pub proof fn law_treasury_gets_the_rest(
    token: u64,
    from: u64,
    treasury: u64,
    fee: i128,
    recipients: Map<u64, u32>,
    entries: Seq<(u64, u32)>,
)
    requires
        0 <= fee,
        split::valid_split(recipients),
        forall|i: int, j: int| 0 <= i < j < entries.len() ==> (#[trigger] entries[i]).0 < (#[trigger] entries[j]).0,
        forall|i: int|
            0 <= i < entries.len() ==> recipients.contains_key((#[trigger] entries[i]).0)
                && recipients[entries[i].0] == entries[i].1,
        forall|k: u64| #[trigger]
            recipients.contains_key(k) ==> exists|i: int| 0 <= i < entries.len() && (#[trigger] entries[i]).0 == k,
    ensures
        action::net_change(fee_payments(token, from, treasury, fee as int, recipients), token, treasury) == fee
            - entries.fold_left(
            0,
            |sum: int, e: (u64, u32)| sum + (if e.0 == treasury { 0 } else { fee * e.1 / 10_000 }),
        ) - (if from == treasury { fee as int } else { 0 }),
{
    let step = |sum: int, e: (u64, u32)| sum + (if e.0 == treasury { 0 } else { fee * e.1 / 10_000 });
    assert(split::is_listing(entries, recipients));
    split::lemma_listing_unique(entries, recipients);
    law_fee_reaches_recipients(token, from, treasury, fee, recipients, treasury);
    lemma_rest(fee as int, entries, treasury, step);
    lemma_share_in_listing(fee as int, recipients, treasury);
}

proof fn lemma_share_payments_shape(token: u64, from: u64, fee: int, entries: Seq<(u64, u32)>)
    requires
        0 <= fee <= i128::MAX,
        split::total_parts(entries) <= split::WHOLE,
    ensures
        forall|i: int|
            0 <= i < share_payments(token, from, fee, entries).len() ==> (#[trigger] share_payments(
                token,
                from,
                fee,
                entries,
            )[i] matches Action::Transfer { token: t, from: f, to, amount } && t == token && f == from && amount > 0
                && exists|j: int| 0 <= j < entries.len() && (#[trigger] entries[j]).0 == to),
    decreases entries.len(),
{
    if entries.len() > 0 {
        let shorter = entries.drop_last();
        let front = share_payments(token, from, fee, shorter);
        let all = share_payments(token, from, fee, entries);
        let amount = share(fee, entries.last().1 as int);
        lemma_prefix_parts(entries, entries.len() - 1);
        assert(entries.take(entries.len() - 1) =~= shorter);
        lemma_distributed_within_fee(fee, entries);
        lemma_distributed_bounds(fee, shorter);
        lemma_share_payments_shape(token, from, fee, shorter);
        assert forall|i: int| 0 <= i < all.len() implies (#[trigger] all[i] matches Action::Transfer {
            token: t,
            from: f,
            to,
            amount,
        } && t == token && f == from && amount > 0 && exists|j: int|
            0 <= j < entries.len() && (#[trigger] entries[j]).0 == to) by {
            if i < front.len() {
                assert(all[i] == front[i]);
                let j = choose|j: int| 0 <= j < shorter.len() && (#[trigger] shorter[j]).0 == front[i]->Transfer_to;
                assert(entries[j] == shorter[j]);
            } else {
                assert(entries[entries.len() - 1].0 == entries.last().0);
            }
        }
    }
}

/// A fee is paid by transfers of the fee token from the payer, each of a
/// positive amount to the treasury or to a recipient of the split.
pub proof fn law_fee_is_transferred(token: u64, from: u64, treasury: u64, fee: i128, recipients: Map<u64, u32>, i: int)
    requires
        0 <= fee,
        split::valid_split(recipients),
        0 <= i < fee_payments(token, from, treasury, fee as int, recipients).len(),
    ensures
        fee_payments(token, from, treasury, fee as int, recipients)[i] matches Action::Transfer {
            token: t,
            from: f,
            to,
            amount,
        } && t == token && f == from && amount > 0 && (to == treasury || recipients.contains_key(to)),
{
    let entries = split::listing(recipients);
    let front = share_payments(token, from, fee as int, entries);
    if recipients.dom().is_empty() {
        split::lemma_empty_split(recipients);
    }
    lemma_distributed_within_fee(fee as int, entries);
    lemma_share_payments_shape(token, from, fee as int, entries);
    if i < front.len() {
        assert(fee_payments(token, from, treasury, fee as int, recipients)[i] == front[i]);
    }
}

/// A share is the largest whole amount within its parts of the fee.
pub proof fn law_share_rounds_down(fee: int, parts: int, amount: int)
    requires
        0 <= fee,
        0 <= parts,
    ensures
        share(fee, parts) == amount <==> amount * 10_000 <= fee * parts < (amount + 1) * 10_000,
{
    lemma_fundamental_div_mod(fee * parts, 10_000);
}

} // verus!
