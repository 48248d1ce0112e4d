//! The action economy: what taking an action costs and restores.
//!
//! One owner for the prices the simulation charges and the planner budgets,
//! so certification prices exactly what play charges.
use vstd::prelude::*;

use crate::schema::PoolKind;

verus! {

/// Why the global clock advanced; controls which pools refresh.
#[derive(Debug, Clone, Copy, PartialEq, Eq, Structural)]
pub enum ClockReason {
    Travel,
    Death,
    CostlyAction,
}

/// The settlement's hostility adds a point to consequential Social work.
pub open spec fn surcharged(pool: PoolKind, cost: u8, settlement_hostile: bool) -> bool {
    settlement_hostile && pool == PoolKind::Social && cost > 0
}

pub open spec fn spec_opportunity_cost(pool: Option<PoolKind>, cost: u8, settlement_hostile: bool) -> Option<(PoolKind, int)> {
    match pool {
        None => None,
        Some(p) => Some((p, cost + if surcharged(p, cost, settlement_hostile) { 1int } else { 0int })),
    }
}

/// The pool cost of resolving an opportunity, after the settlement-hostility
/// surcharge on consequential Social work. Free interactions (no pool) stay
/// free, and the surcharge never turns a zero cost into a charged one.
pub fn opportunity_cost(pool: Option<PoolKind>, cost: u8, settlement_hostile: bool) -> (r: Option<(PoolKind, u8)>)
    requires
        settlement_hostile && pool == Some(PoolKind::Social) ==> cost < u8::MAX,
    ensures
        r is None <==> spec_opportunity_cost(pool, cost, settlement_hostile) is None,
        r matches Some((p, c)) ==> spec_opportunity_cost(pool, cost, settlement_hostile) == Some((p, c as int)),
{
    let pool = match pool {
        Some(pool) => pool,
        None => {
            return None;
        },
    };
    let surcharge = settlement_hostile && pool == PoolKind::Social && cost > 0;
    let extra: u8 = if surcharge {
        1
    } else {
        0
    };
    Some((pool, cost + extra))
}

/// The surcharge only ever adds one point, only to Social work in a hostile
/// settlement, and never prices a free or zero-cost interaction.
pub proof fn lemma_surcharge_never_prices_free_work(pool: Option<PoolKind>, cost: u8, settlement_hostile: bool)
    ensures
        pool is None ==> spec_opportunity_cost(pool, cost, settlement_hostile) is None,
        cost == 0 && pool is Some ==> spec_opportunity_cost(pool, cost, settlement_hostile) == Some((pool.unwrap(), 0int)),
        pool matches Some(p) ==> spec_opportunity_cost(pool, cost, settlement_hostile).unwrap().1 - cost
            == if settlement_hostile && p == PoolKind::Social && cost > 0 { 1int } else { 0int },
{
}

/// What a global-clock advance restores. Each restore is one point, up to
/// the pool's cap, and never eats into anything held above cap, like the
/// favour's over-cap Mystic point.
#[derive(Debug, Clone, Copy, PartialEq, Eq, Structural)]
pub struct ClockRestore {
    /// Physical restores on every global-clock advance.
    pub physical: bool,
    /// Travel additionally restores every investigation pool.
    pub investigation_pools: bool,
}

pub fn clock_restore(reason: ClockReason) -> (r: ClockRestore)
    ensures
        r.physical,
        r.investigation_pools == (reason == ClockReason::Travel),
{
    ClockRestore { physical: true, investigation_pools: reason == ClockReason::Travel }
}

} // verus!
