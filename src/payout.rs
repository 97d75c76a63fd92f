use vstd::prelude::*;
use crate::error::ErrorCode;
use crate::identity::Identity;
use crate::pool::{Pool, PoolView};

verus! {

/// A transfer out of the pool's custodial balance.
#[derive(Clone, Copy, Debug)]
pub struct Payout {
    pub to: Identity,
    pub amount: u64,
}

/// The percentage of the pot paid to each slot, in rank order, for a pool of
/// `n` participants. With one to three participants the slot after the ranked
/// ones is the burn wallet's cut; from four on, four ranked slots take it all.
pub open spec fn split_table(n: nat) -> Seq<u64> {
    if n == 1 {
        seq![90, 10]
    } else if n == 2 {
        seq![60, 30, 10]
    } else {
        seq![50, 25, 15, 10]
    }
}

/// `pct` percent of `total`, rounded down.
pub open spec fn share_of(total: nat, pct: nat) -> nat {
    total * pct / 100
}

/// The transfers that settle a pot of `total` among `n` participants: slot `i`
/// goes to `recipients[i]`.
pub open spec fn payout_plan(total: nat, n: nat, recipients: Seq<Identity>) -> Seq<Payout> {
    Seq::new(
        split_table(n).len(),
        |i: int| Payout { to: recipients[i], amount: share_of(total, split_table(n)[i] as nat) as u64 },
    )
}

/// What settling `pool` with the ranked `recipients` yields: the closed pool and
/// the transfers to make, or the reason it is refused.
pub open spec fn settle(pool: PoolView, recipients: Seq<Identity>) -> Result<(PoolView, Seq<Payout>), ErrorCode> {
    let n = pool.participants.len();
    if !pool.is_active {
        Err(ErrorCode::RaceNotActive)
    } else if n == 0 {
        Ok((pool.closed(), seq![Payout { to: pool.authority, amount: pool.entry_amount }]))
    } else if pool.entry_amount * n > u64::MAX {
        Err(ErrorCode::ArithmeticOverflow)
    } else if recipients.len() == 0 {
        Err(ErrorCode::NoWinners)
    } else if recipients.len() <= n {
        Err(ErrorCode::InsufficientRecipients)
    } else {
        Ok((pool.closed(), payout_plan((pool.entry_amount * n) as nat, n, recipients)))
    }
}

/// The percentages of `split_table(n)`.
fn split_percentages(n: usize) -> (r: Vec<u64>)
    requires
        n >= 1,
    ensures
        r@ == split_table(n as nat),
{
    let r = if n == 1 {
        vec![90, 10]
    } else if n == 2 {
        vec![60, 30, 10]
    } else {
        vec![50, 25, 15, 10]
    };
    proof {
        assert(r@ =~= split_table(n as nat));
    }
    r
}

/// Closes an active pool and returns the transfers that pay it out, in order.
/// An empty pool refunds its entry amount to the authority that opened it.
/// Otherwise the pot `entry_amount * participants` is split by `split_table`
/// among the first slots of `recipients`. On an error the pool is unchanged.
pub fn end_race(pool: &mut Pool, recipients: &Vec<Identity>) -> (r: Result<Vec<Payout>, ErrorCode>)
    ensures
        match r {
            Ok(payouts) => settle(old(pool)@, recipients@) == Ok::<(PoolView, Seq<Payout>), ErrorCode>(
                (final(pool)@, payouts@),
            ),
            Err(e) => settle(old(pool)@, recipients@) == Err::<(PoolView, Seq<Payout>), ErrorCode>(e)
                && final(pool)@ == old(pool)@,
        },
        old(pool)@.wf() ==> final(pool)@.wf(),
{
    if !pool.is_active {
        return Err(ErrorCode::RaceNotActive);
    }
    let n = pool.participants.len();
    if n == 0 {
        let mut refund: Vec<Payout> = Vec::new();
        refund.push(Payout { to: pool.authority, amount: pool.entry_amount });
        pool.is_active = false;
        pool.participants.clear();
        proof {
            assert(pool@ =~= old(pool)@.closed());
            assert(refund@ =~= seq![Payout { to: old(pool).authority, amount: old(pool).entry_amount }]);
        }
        return Ok(refund);
    }
    let total = match pool.entry_amount.checked_mul(n as u64) {
        Some(t) => t,
        None => {
            return Err(ErrorCode::ArithmeticOverflow);
        },
    };
    if recipients.len() == 0 {
        return Err(ErrorCode::NoWinners);
    }
    if recipients.len() <= n {
        return Err(ErrorCode::InsufficientRecipients);
    }
    let shares = split_percentages(n);
    let ghost plan = payout_plan(total as nat, n as nat, recipients@);
    let mut payouts: Vec<Payout> = Vec::new();
    let mut i: usize = 0;
    while i < shares.len()
        invariant
            shares@ == split_table(n as nat),
            n >= 1,
            recipients.len() >= n + 1,
            plan == payout_plan(total as nat, n as nat, recipients@),
            i <= shares.len(),
            payouts@ =~= plan.take(i as int),
        decreases shares.len() - i,
    {
        let pct = shares[i];
        assert(pct <= 90);
        assert((total as u128) * (pct as u128) <= u64::MAX * 90) by (nonlinear_arith)
            requires
                pct <= 90,
                total <= u64::MAX,
        ;
        let wide = (total as u128) * (pct as u128);
        assert(wide / 100 <= total) by (nonlinear_arith)
            requires
                wide == total * pct,
                pct <= 90,
        ;
        let amount = (wide / 100) as u64;
        payouts.push(Payout { to: recipients[i], amount });
        i = i + 1;
    }
    pool.is_active = false;
    pool.participants.clear();
    proof {
        assert(pool@ =~= old(pool)@.closed());
        assert(payouts@ =~= plan);
    }
    Ok(payouts)
}

/// The sum of the amounts of `payouts`.
pub open spec fn total_paid(payouts: Seq<Payout>) -> nat
    decreases payouts.len(),
{
    if payouts.len() == 0 {
        0
    } else {
        total_paid(payouts.drop_last()) + payouts.last().amount as nat
    }
}

/// Settling a pool of `n >= 1` participants with entry amount `e` pays out at
/// most `e * n`, and loses less than one unit per slot but the first to
/// rounding.
pub proof fn lemma_settlement_pays_out_pot(pool: PoolView, recipients: Seq<Identity>)
    requires
        settle(pool, recipients) is Ok,
        pool.participants.len() >= 1,
    ensures
        ({
            let payouts = settle(pool, recipients)->Ok_0.1;
            let pot = pool.entry_amount * pool.participants.len();
            &&& total_paid(payouts) <= pot
            &&& total_paid(payouts) + payouts.len() - 1 >= pot
        }),
{
    let n = pool.participants.len();
    let t = (pool.entry_amount * n) as nat;
    let payouts = payout_plan(t, n, recipients);
    reveal_with_fuel(total_paid, 5);
    if n == 1 {
        assert(t * 90 / 100 + t * 10 / 100 <= t && t * 90 / 100 + t * 10 / 100 + 1 >= t) by (nonlinear_arith);
    } else if n == 2 {
        assert(t * 60 / 100 + t * 30 / 100 + t * 10 / 100 <= t && t * 60 / 100 + t * 30 / 100 + t * 10 / 100 + 2 >= t)
            by (nonlinear_arith);
    } else {
        assert(t * 50 / 100 + t * 25 / 100 + t * 15 / 100 + t * 10 / 100 <= t && t * 50 / 100 + t * 25 / 100 + t * 15 / 100
            + t * 10 / 100 + 3 >= t) by (nonlinear_arith);
    }
}

/// Settling an active pool with no participants refunds its entry amount to
/// the authority that opened it, in one transfer, and closes it.
pub proof fn lemma_empty_pool_refund(pool: PoolView, recipients: Seq<Identity>)
    requires
        pool.is_active,
        pool.participants.len() == 0,
    ensures
        settle(pool, recipients) == Ok::<(PoolView, Seq<Payout>), ErrorCode>(
            (pool.closed(), seq![Payout { to: pool.authority, amount: pool.entry_amount }]),
        ),
        !pool.closed().is_active,
{
}

/// A pool that has been settled cannot be settled again: the second attempt
/// fails with `RaceNotActive`, whatever the recipients.
pub proof fn lemma_settles_once(pool: PoolView, first: Seq<Identity>, second: Seq<Identity>)
    requires
        settle(pool, first) is Ok,
    ensures
        settle(settle(pool, first)->Ok_0.0, second) == Err::<(PoolView, Seq<Payout>), ErrorCode>(ErrorCode::RaceNotActive),
{
}

} // verus!
