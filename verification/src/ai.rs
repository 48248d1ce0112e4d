//! The villain's numbers as its threat tier rises: each scheme event that
//! raises the tier unlocks the next of its authored tier behaviours.
use vstd::prelude::*;

use crate::schema::{TierBehaviour, TierEffect, VillainDef};
use crate::viability::{bonus_upto, tier_bonus, tier_damage};

verus! {

/// What a tier effect does to the pounce (or, with `dash`, the dash)
/// cooldown, if anything.
pub open spec fn cooldown_of(effect: TierEffect, dash: bool) -> Option<u8> {
    match effect {
        TierEffect::PounceCooldown { turns } => if !dash { Some(turns) } else { None },
        TierEffect::DashCooldown { turns } => if dash { Some(turns) } else { None },
        _ => None,
    }
}

/// The shortest such cooldown among the first `k` behaviours.
pub open spec fn least_cooldown(bs: Seq<TierBehaviour>, k: int, dash: bool) -> Option<u8>
    decreases k,
{
    if k <= 0 {
        None
    } else {
        let rest = least_cooldown(bs, k - 1, dash);
        match cooldown_of(bs[k - 1].effect, dash) {
            None => rest,
            Some(t) => match rest {
                None => Some(t),
                Some(r) => Some(if t < r { t } else { r }),
            },
        }
    }
}

/// How many behaviours the tier has unlocked.
pub open spec fn unlocked(v: VillainDef, tier: u8) -> int {
    if tier as int <= v.tier_behaviours@.len() {
        tier as int
    } else {
        v.tier_behaviours@.len() as int
    }
}

/// The cooldown in force at `tier`: the shortest one unlocked, else `base`.
pub open spec fn spec_cooldown(v: VillainDef, tier: u8, base: u8, dash: bool) -> u8 {
    match least_cooldown(v.tier_behaviours@, unlocked(v, tier), dash) {
        Some(t) => t,
        None => base,
    }
}

/// Bonus melee damage unlocked by reaching `tier`.
pub fn tier_bonus_damage(def: &VillainDef, tier: u8) -> (r: u16)
    requires
        tier_damage(*def, tier) <= u16::MAX,
    ensures
        r == tier_damage(*def, tier),
{
    let n: usize = if (tier as usize) <= def.tier_behaviours.len() {
        tier as usize
    } else {
        def.tier_behaviours.len()
    };
    proof {
        lemma_bonus_monotone(def.tier_behaviours@, n as int);
    }
    let mut total: u16 = 0;
    let mut k: usize = 0;
    while k < n
        invariant
            k <= n <= def.tier_behaviours.len(),
            n == unlocked(*def, tier),
            total == bonus_upto(def.tier_behaviours@, k as int),
            forall|j: int| 0 <= j <= n ==> bonus_upto(def.tier_behaviours@, j) <= bonus_upto(def.tier_behaviours@, n as int),
            tier_damage(*def, tier) == bonus_upto(def.tier_behaviours@, n as int),
            tier_damage(*def, tier) <= u16::MAX,
        decreases n - k,
    {
        let amount: u16 = match def.tier_behaviours[k].effect {
            TierEffect::BonusMeleeDamage { amount } => amount,
            _ => 0,
        };
        proof {
            assert(bonus_upto(def.tier_behaviours@, k + 1) == bonus_upto(def.tier_behaviours@, k as int) + tier_bonus(
                def.tier_behaviours@[k as int],
            ));
        }
        total = total + amount;
        k = k + 1;
    }
    total
}

/// The bonus from more behaviours is never smaller.
proof fn lemma_bonus_monotone(bs: Seq<TierBehaviour>, n: int)
    requires
        0 <= n <= bs.len(),
    ensures
        forall|j: int| 0 <= j <= n ==> bonus_upto(bs, j) <= bonus_upto(bs, n),
    decreases n,
{
    if n > 0 {
        lemma_bonus_monotone(bs, n - 1);
        assert(tier_bonus(bs[n - 1]) >= 0);
    }
}

fn least_unlocked(def: &VillainDef, tier: u8, base: u8, dash: bool) -> (r: u8)
    ensures
        r == spec_cooldown(*def, tier, base, dash),
{
    let n: usize = if (tier as usize) <= def.tier_behaviours.len() {
        tier as usize
    } else {
        def.tier_behaviours.len()
    };
    let mut least: Option<u8> = None;
    let mut k: usize = 0;
    while k < n
        invariant
            k <= n <= def.tier_behaviours.len(),
            n == unlocked(*def, tier),
            least == least_cooldown(def.tier_behaviours@, k as int, dash),
        decreases n - k,
    {
        let found: Option<u8> = match def.tier_behaviours[k].effect {
            TierEffect::PounceCooldown { turns } => if !dash { Some(turns) } else { None },
            TierEffect::DashCooldown { turns } => if dash { Some(turns) } else { None },
            _ => None,
        };
        match found {
            Some(t) => {
                least = match least {
                    None => Some(t),
                    Some(r) => Some(if t < r { t } else { r }),
                };
            },
            None => {},
        }
        k = k + 1;
    }
    match least {
        Some(t) => t,
        None => base,
    }
}

/// The pounce cooldown at `tier`: the shortest unlocked, else `base`.
pub fn pounce_cooldown(def: &VillainDef, tier: u8, base: u8) -> (r: u8)
    ensures
        r == spec_cooldown(*def, tier, base, false),
{
    least_unlocked(def, tier, base, false)
}

/// The dash cooldown at `tier`: the shortest unlocked, else `base`.
pub fn dash_cooldown(def: &VillainDef, tier: u8, base: u8) -> (r: u8)
    ensures
        r == spec_cooldown(*def, tier, base, true),
{
    least_unlocked(def, tier, base, true)
}

} // verus!
