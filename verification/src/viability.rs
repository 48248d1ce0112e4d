//! Combat-viability heuristic shared by the planner and the inspector.
//!
//! A deterministic, integer-only estimate (permille) of the hunter's chance
//! in a final fight, given a prepared loadout and the villain's threat tier.
//! The generator certifies routes only when this clears the authored
//! `viability_threshold_permille`; bad-roll losses remain possible in play.
//!
//! The model is deliberately coarse: expected damage-per-turn races with
//! flat bonuses for snares (denial), draughts (effective health at an action
//! cost), and a Killing Blow burst. Its purpose is comparative gating of
//! generated worlds, not exact win probability.
use vstd::prelude::*;

use vstd::arithmetic::div_mod::{lemma_div_is_ordered, lemma_div_is_ordered_by_denominator};
use vstd::arithmetic::mul::lemma_mul_inequality;

use crate::catalogue::Catalogue;
use crate::combat::{COUP_MULTIPLIER, KILLING_BLOW_MULTIPLIER, MULTIPLIER_HALVES, VULNERABILITY_MULTIPLIER};
use crate::schema::{
    CadenceDef, ItemKind, ManoeuvreDef, ManoeuvreEffect, SignatureDef, SignatureEffect,
    TierBehaviour, TierEffect, VillainDef,
};

verus! {

/// What the hunter brings to the hunt, as tracked by the planner.
#[derive(Debug, Clone, Copy, PartialEq, Eq)]
pub struct HuntLoadout {
    pub hunter_hp: u16,
    pub draughts: u16,
    pub silver_bullets: u16,
    pub binding_charms: u16,
    /// Cold-iron blades: the counter that cuts through a hex-ward.
    pub counter_blades: u16,
    /// Physical points available for snares / Killing Blow.
    pub physical: u8,
    /// The fight happens on consecrated ground (revenant church route).
    pub on_consecrated_ground: bool,
    /// The hunt opens on the dormant villain in its grave (coup de grace).
    pub dormant_opening: bool,
}

impl HuntLoadout {
    /// What a kit is worth in the hunt, derived beside the model that prices
    /// it. `item_count` answers for whatever inventory the caller tracks; the
    /// dormant opening stays the caller's choice to weigh.
    pub fn from_kit<F: Fn(&str) -> u16>(
        catalogue: &Catalogue,
        item_count: F,
        physical: u8,
        on_consecrated_ground: bool,
    ) -> (r: Self)
        requires
            forall|s: &str| #[trigger] item_count.requires((s,)),
        ensures
            r.hunter_hp == catalogue.hunter.health,
            item_count.ensures(("wound-draught",), r.draughts),
            item_count.ensures(("silver-bullet",), r.silver_bullets),
            item_count.ensures(("binding-charm",), r.binding_charms),
            item_count.ensures(("cold-iron-pin",), r.counter_blades),
            r.physical == physical,
            r.on_consecrated_ground == on_consecrated_ground,
            !r.dormant_opening,
    {
        let draughts = item_count("wound-draught");
        let silver_bullets = item_count("silver-bullet");
        let binding_charms = item_count("binding-charm");
        let counter_blades = item_count("cold-iron-pin");
        HuntLoadout {
            hunter_hp: catalogue.hunter.health,
            draughts,
            silver_bullets,
            binding_charms,
            counter_blades,
            physical,
            on_consecrated_ground,
            dormant_opening: false,
        }
    }
}

// ---------------------------------------------------------------------------
// The model, stated over mathematical integers.
// ---------------------------------------------------------------------------
/// What an item is, if the catalogue has it.
pub open spec fn item_kind(cat: &Catalogue, id: Seq<char>) -> Option<ItemKind> {
    match cat.items.lookup(id) {
        Some(def) => Some(def.kind),
        None => None,
    }
}

/// The heaviest melee weapon among `items`, if any.
pub open spec fn best_blade(cat: &Catalogue, items: Seq<String>) -> Option<u16>
    decreases items.len(),
{
    if items.len() == 0 {
        None
    } else {
        let rest = best_blade(cat, items.drop_last());
        match item_kind(cat, items.last()@) {
            Some(ItemKind::MeleeWeapon { damage }) => match rest {
                Some(b) => Some(
                    if damage >= b {
                        damage
                    } else {
                        b
                    },
                ),
                None => Some(damage),
            },
            _ => rest,
        }
    }
}

/// The hunter's blade damage: her heaviest starting melee weapon, or 1.
pub open spec fn blade(cat: &Catalogue) -> int {
    match best_blade(cat, cat.hunter.starting_items@) {
        Some(b) => b as int,
        None => 1,
    }
}

/// The numerator of the first damage-multiplier manoeuvre, if any.
pub open spec fn first_multiplier(ms: Seq<ManoeuvreDef>) -> Option<u8>
    decreases ms.len(),
{
    if ms.len() == 0 {
        None
    } else {
        match ms[0].effect {
            ManoeuvreEffect::MeleeDamageMultiplier { numerator } => Some(numerator),
            _ => first_multiplier(ms.drop_first()),
        }
    }
}

/// The hunter's strike multiplier in halves; a plain swing is 1x.
pub open spec fn power_numerator(cat: &Catalogue) -> int {
    match first_multiplier(cat.hunter.manoeuvres@) {
        Some(n) => n as int,
        None => MULTIPLIER_HALVES as int,
    }
}

/// Which signature a kind tag names: 0 snare, 1 Killing Blow, 2 warded ground.
pub open spec fn signature_is(e: SignatureEffect, kind: int) -> bool {
    match e {
        SignatureEffect::SetSnare => kind == 0,
        SignatureEffect::KillingBlow => kind == 1,
        SignatureEffect::WardTheGround { .. } => kind == 2,
        _ => false,
    }
}

/// The Physical cost of the first signature of the given kind.
pub open spec fn first_cost(sigs: Seq<SignatureDef>, kind: int) -> Option<u8>
    decreases sigs.len(),
{
    if sigs.len() == 0 {
        None
    } else if signature_is(sigs[0].effect, kind) {
        Some(sigs[0].physical_cost)
    } else {
        first_cost(sigs.drop_first(), kind)
    }
}

/// Whether the hunter has the signature of this kind and can pay for it.
pub open spec fn affords(cat: &Catalogue, l: HuntLoadout, kind: int) -> bool {
    match first_cost(cat.hunter.signatures@, kind) {
        Some(cost) => l.physical >= cost,
        None => false,
    }
}

/// The first second-in-the-fight signature the loadout can pay for, as
/// `(turns, damage_per_turn)`.
pub open spec fn first_second(sigs: Seq<SignatureDef>, physical: u8) -> Option<(u8, u16)>
    decreases sigs.len(),
{
    if sigs.len() == 0 {
        None
    } else {
        match sigs[0].effect {
            SignatureEffect::SecondInTheFight { turns, damage_per_turn } if physical
                >= sigs[0].physical_cost => Some((turns, damage_per_turn)),
            _ => first_second(sigs.drop_first(), physical),
        }
    }
}

pub open spec fn second(cat: &Catalogue, l: HuntLoadout) -> Option<(u8, u16)> {
    first_second(cat.hunter.signatures@, l.physical)
}

/// Plain melee damage per turn, in millis.
pub open spec fn base_dpt(cat: &Catalogue) -> int {
    blade(cat) * 1000 * cat.balance.combat.melee_hit_percent / 100
}

/// Melee damage per turn with the ward's bite folded in.
pub open spec fn warded_dpt(cat: &Catalogue, l: HuntLoadout) -> int {
    if affords(cat, l, 2) {
        base_dpt(cat) + cat.balance.combat.ground_ward_damage * 1000 / 2
    } else {
        base_dpt(cat)
    }
}

/// The second's share of a turn's damage.
pub open spec fn second_dpt(cat: &Catalogue, damage_per_turn: int) -> int {
    damage_per_turn * 1000 * cat.balance.combat.melee_hit_percent / 100 / 2
}

/// Expected hunter damage per turn, in millis.
pub open spec fn melee_dpt(cat: &Catalogue, l: HuntLoadout) -> int {
    match second(cat, l) {
        Some((_, d)) => warded_dpt(cat, l) + second_dpt(cat, d as int),
        None => warded_dpt(cat, l),
    }
}

pub open spec fn capped_tier(tier: u8) -> int {
    if tier <= 2 {
        tier as int
    } else {
        2
    }
}

/// The villain's health at this tier, in millis.
pub open spec fn villain_hp(v: VillainDef, tier: u8) -> int {
    (v.health + v.tier_bonus_health * capped_tier(tier)) * 1000
}

pub open spec fn tier_bonus(b: TierBehaviour) -> int {
    match b.effect {
        TierEffect::BonusMeleeDamage { amount } => amount as int,
        _ => 0,
    }
}

/// Bonus melee damage from the first `k` tier behaviours.
pub open spec fn bonus_upto(bs: Seq<TierBehaviour>, k: int) -> int
    decreases k,
{
    if k <= 0 {
        0
    } else {
        bonus_upto(bs, k - 1) + tier_bonus(bs[k - 1])
    }
}

/// Bonus melee damage unlocked by reaching `tier`.
pub open spec fn tier_damage(v: VillainDef, tier: u8) -> int {
    let n = if tier as int <= v.tier_behaviours@.len() {
        tier as int
    } else {
        v.tier_behaviours@.len() as int
    };
    bonus_upto(v.tier_behaviours@, n)
}

/// The villain's offence before the hunter's denial, in millis.
pub open spec fn raw_incoming(v: VillainDef, tier: u8) -> int {
    (v.melee_damage + tier_damage(v, tier)) * 10 * v.hit_percent
}

/// Snares blunt the offence; warded ground less reliably so.
pub open spec fn denied_incoming(cat: &Catalogue, l: HuntLoadout, raw: int) -> int {
    if affords(cat, l, 0) {
        raw * 9 / 10
    } else if affords(cat, l, 2) {
        raw * 19 / 20
    } else {
        raw
    }
}

pub open spec fn at_least(v: int, floor: int) -> int {
    if v >= floor {
        v
    } else {
        floor
    }
}

/// The villain's expected damage per turn, in millis, never below 100.
pub open spec fn incoming(cat: &Catalogue, v: VillainDef, tier: u8, l: HuntLoadout) -> int {
    at_least(denied_incoming(cat, l, raw_incoming(v, tier)), 100)
}

pub open spec fn counter_blade_damage(cat: &Catalogue, v: VillainDef) -> Option<int> {
    match item_kind(cat, v.weakness_item@) {
        Some(ItemKind::WeaknessBlade { damage }) => Some(damage as int),
        _ => None,
    }
}

pub open spec fn sat_sub(a: int, b: int) -> int {
    if a >= b {
        a - b
    } else {
        0
    }
}

/// Turns to kill a hex-warded villain of `hp` millis.
pub open spec fn ward_turns(cat: &Catalogue, v: VillainDef, l: HuntLoadout, hp: int) -> int {
    let hit = cat.balance.combat.melee_hit_percent as int;
    let ward = v.ward.unwrap();
    match (l.counter_blades > 0, counter_blade_damage(cat, v)) {
        (true, Some(b)) => at_least(hp / at_least(b * 1000 * hit / 100, 100), 1),
        _ => {
            let cycle_turns = ward.charges + ward.reweave_turns;
            let cycle_damage = ward.charges * ward.leak_damage * 1000 + ward.reweave_turns * melee_dpt(cat, l);
            at_least(hp / at_least(cycle_damage / at_least(cycle_turns, 1), 100), 1)
        },
    }
}

/// The silver round's damage and whether it stops regeneration, when the
/// loadout carries one and the weakness is ammunition.
pub open spec fn silver_round(cat: &Catalogue, v: VillainDef, l: HuntLoadout) -> Option<(int, bool)> {
    if l.silver_bullets > 0 {
        match item_kind(cat, v.weakness_item@) {
            Some(ItemKind::WeaknessAmmunition { damage, stops_regeneration }) => Some(
                (damage as int, stops_regeneration),
            ),
            _ => None,
        }
    } else {
        None
    }
}

/// Turns to kill an always-woundable, regenerating villain of `hp` millis.
pub open spec fn regen_turns(cat: &Catalogue, v: VillainDef, l: HuntLoadout, hp: int) -> int {
    let regen = match v.regeneration {
        Some(r) => r.per_turn * 1000,
        None => 0,
    };
    let (effective, regen, setup): (int, int, int) = match silver_round(cat, v, l) {
        Some((damage, stops)) => (sat_sub(hp, damage * 1000), if stops {
            0int
        } else {
            regen
        }, 2int),
        None => (hp, regen, 0int),
    };
    let net = at_least(sat_sub(melee_dpt(cat, l), regen), 100);
    let turns = effective / net + setup;
    let turns = if affords(cat, l, 1) {
        turns - 2
    } else {
        turns
    };
    at_least(turns, 1)
}

/// What the coup de grace on the dormant thing takes off, in millis.
pub open spec fn coup_opener(cat: &Catalogue, l: HuntLoadout) -> int {
    let finisher = if affords(cat, l, 1) {
        KILLING_BLOW_MULTIPLIER as int
    } else {
        1
    };
    blade(cat) * power_numerator(cat) * 1000 / (MULTIPLIER_HALVES as int) * finisher * (COUP_MULTIPLIER as int)
}

pub open spec fn vulnerable_dpt(cat: &Catalogue, l: HuntLoadout) -> int {
    melee_dpt(cat, l) * (VULNERABILITY_MULTIPLIER as int)
}

/// Turns to land `remaining` millis on a cadenced villain after any opener.
pub open spec fn cadence_rest(cat: &Catalogue, c: CadenceDef, l: HuntLoadout, remaining: int) -> int {
    let vdpt = vulnerable_dpt(cat, l);
    if l.on_consecrated_ground {
        remaining / at_least(vdpt + c.consecrated_damage_per_turn * 1000, 100) + 1
    } else {
        let charm_turns = l.binding_charms * c.bound_vulnerable_turns;
        let charm_damage = charm_turns * vdpt;
        let placing: int = if l.binding_charms > 0 {
            1
        } else {
            0
        };
        if charm_damage >= remaining {
            remaining / at_least(vdpt, 100) + placing
        } else {
            charm_turns + placing + (remaining - charm_damage) / at_least(vdpt / (c.period as int), 100)
        }
    }
}

/// Turns to kill a villain that is only woundable in its cadence windows.
pub open spec fn cadence_turns(cat: &Catalogue, v: VillainDef, l: HuntLoadout, hp: int) -> int {
    let c = v.cadence.unwrap();
    let (remaining, opened): (int, int) = if l.dormant_opening {
        (sat_sub(hp, coup_opener(cat, l)), 1)
    } else {
        (hp, 0)
    };
    at_least(opened + cadence_rest(cat, c, l, remaining), 1)
}

/// Turns the hunter needs to kill a villain of `hp` millis.
pub open spec fn turns_to_kill(cat: &Catalogue, v: VillainDef, l: HuntLoadout, hp: int) -> int {
    if v.ward is Some {
        ward_turns(cat, v, l, hp)
    } else if v.cadence is None {
        regen_turns(cat, v, l, hp)
    } else {
        cadence_turns(cat, v, l, hp)
    }
}

pub open spec fn draught_heal(cat: &Catalogue) -> int {
    match item_kind(cat, "wound-draught"@) {
        Some(ItemKind::Draught { heal }) => heal as int,
        _ => 4,
    }
}

pub open spec fn effective_hp(cat: &Catalogue, l: HuntLoadout) -> int {
    (l.hunter_hp + draught_heal(cat) * l.draughts) * 1000
}

pub open spec fn min_int(a: int, b: int) -> int {
    if a <= b {
        a
    } else {
        b
    }
}

/// Turns the hunter survives against `incoming` millis a turn.
pub open spec fn survive(cat: &Catalogue, l: HuntLoadout, incoming: int) -> int {
    let s = effective_hp(cat, l) / incoming;
    let s = if affords(cat, l, 0) {
        s + min_int(l.physical as int, 2) * 3
    } else if affords(cat, l, 2) {
        s + 5
    } else {
        s
    };
    let s = match second(cat, l) {
        Some((turns, _)) => s + (turns as int) / 2,
        None => s,
    };
    let s = s - l.draughts;
    if l.on_consecrated_ground {
        s + 1
    } else {
        s
    }
}

pub open spec fn clamp_permille(v: int) -> int {
    if v < 0 {
        0
    } else if v > 1000 {
        1000
    } else {
        v
    }
}

/// Final-fight viability in permille for a villain definition.
pub open spec fn viability_of(cat: &Catalogue, v: VillainDef, tier: u8, l: HuntLoadout) -> int {
    let ttk = turns_to_kill(cat, v, l, villain_hp(v, tier));
    let s = survive(cat, l, incoming(cat, v, tier, l));
    clamp_permille(500 + (s - ttk) * 75)
}

/// Estimated final-fight viability in permille; an unknown villain scores 0.
pub open spec fn spec_hunt_viability(cat: &Catalogue, villain_id: Seq<char>, tier: u8, l: HuntLoadout) -> int {
    match cat.villains.lookup(villain_id) {
        Some(v) => viability_of(cat, v, tier, l),
        None => 0,
    }
}

// ---------------------------------------------------------------------------
// The bounds under which the estimate's fixed-width arithmetic is exact.
// ---------------------------------------------------------------------------
pub open spec fn fits_u16(v: int) -> bool {
    0 <= v <= u16::MAX
}

pub open spec fn fits_u32(v: int) -> bool {
    0 <= v <= u32::MAX
}

pub open spec fn fits_i32(v: int) -> bool {
    i32::MIN <= v <= i32::MAX
}

/// The hunter's offence stays within its 32-bit millis.
pub open spec fn offence_fits(cat: &Catalogue, l: HuntLoadout) -> bool {
    let hit = cat.balance.combat.melee_hit_percent as int;
    &&& fits_u32(blade(cat) * 1000 * hit)
    &&& fits_u32(warded_dpt(cat, l))
    &&& (second(cat, l) matches Some((_, d)) ==> fits_u32(d * 1000 * hit) && fits_u32(melee_dpt(cat, l)))
}

/// The villain's numbers stay within their 16-bit fields.
pub open spec fn villain_fits(v: VillainDef, tier: u8) -> bool {
    &&& fits_u16(v.tier_bonus_health * capped_tier(tier))
    &&& fits_u16(v.health + v.tier_bonus_health * capped_tier(tier))
    &&& fits_u16(v.melee_damage + tier_damage(v, tier))
}

/// The turns-to-kill branch's intermediates stay within 32 bits, and the
/// cadence divides by a real period.
pub open spec fn kill_fits(cat: &Catalogue, v: VillainDef, l: HuntLoadout, hp: int) -> bool {
    let hit = cat.balance.combat.melee_hit_percent as int;
    if v.ward is Some {
        let ward = v.ward.unwrap();
        &&& (counter_blade_damage(cat, v) matches Some(b) ==> fits_u32(b * 1000 * hit))
        &&& fits_u32(ward.charges * ward.leak_damage * 1000)
        &&& fits_u32(ward.reweave_turns * melee_dpt(cat, l))
        &&& fits_u32(ward.charges * ward.leak_damage * 1000 + ward.reweave_turns * melee_dpt(cat, l))
    } else if v.cadence is None {
        true
    } else {
        let c = v.cadence.unwrap();
        let vdpt = vulnerable_dpt(cat, l);
        &&& fits_u32(vdpt)
        &&& (l.dormant_opening ==> {
            &&& fits_u32(blade(cat) * power_numerator(cat) * 1000)
            &&& fits_u32(coup_opener(cat, l))
        })
        &&& fits_u32(vdpt + c.consecrated_damage_per_turn * 1000)
        &&& fits_u32(l.binding_charms * c.bound_vulnerable_turns * vdpt)
        &&& c.period > 0
    }
}

/// The hunter's survival numbers stay within their 16-bit fields.
pub open spec fn survival_fits(cat: &Catalogue, l: HuntLoadout) -> bool {
    &&& fits_u16(draught_heal(cat) * l.draughts)
    &&& fits_u16(l.hunter_hp + draught_heal(cat) * l.draughts)
}

/// Every fixed-width step of the estimate for this villain and tier is
/// exact: the inputs on which the estimate is defined.
pub open spec fn viability_fits(cat: &Catalogue, v: VillainDef, tier: u8, l: HuntLoadout) -> bool {
    &&& offence_fits(cat, l)
    &&& villain_fits(v, tier)
    &&& kill_fits(cat, v, l, villain_hp(v, tier))
    &&& survival_fits(cat, l)
    &&& fits_i32((survive(cat, l, incoming(cat, v, tier, l)) - turns_to_kill(cat, v, l, villain_hp(v, tier))) * 75)
    &&& fits_i32((survive(cat, l, incoming(cat, v, tier, l)) - turns_to_kill(cat, v, l, villain_hp(v, tier))) * 75 + 500)
}

pub open spec fn hunt_viability_fits(cat: &Catalogue, villain_id: Seq<char>, tier: u8, l: HuntLoadout) -> bool {
    cat.villains.lookup(villain_id) matches Some(v) ==> viability_fits(cat, v, tier, l)
}


// ---------------------------------------------------------------------------
// The estimate.
// ---------------------------------------------------------------------------
proof fn lemma_skip_step<T>(s: Seq<T>, k: int)
    requires
        0 <= k < s.len(),
    ensures
        s.skip(k)[0] == s[k],
        s.skip(k).drop_first() =~= s.skip(k + 1),
        s.skip(k).len() > 0,
{
}

/// What the catalogue says item `id` is.
fn kind_of<'a>(cat: &'a Catalogue, id: &str) -> (r: Option<&'a ItemKind>)
    ensures
        r matches Some(k) ==> item_kind(cat, id@) == Some(*k),
        r is None ==> item_kind(cat, id@) is None,
{
    match cat.items.get(id) {
        Some(def) => Some(&def.kind),
        None => None,
    }
}

/// The hunter's heaviest starting blade, or 1.
fn blade_of(cat: &Catalogue) -> (b: u16)
    ensures
        b == blade(cat),
{
    let items = &cat.hunter.starting_items;
    let mut best: Option<u16> = None;
    let mut k: usize = 0;
    while k < items.len()
        invariant
            items == &cat.hunter.starting_items,
            k <= items.len(),
            best == best_blade(cat, items@.take(k as int)),
        decreases items.len() - k,
    {
        proof {
            assert(items@.take(k + 1).drop_last() =~= items@.take(k as int));
            assert(items@.take(k + 1).last() == items@[k as int]);
        }
        match kind_of(cat, items[k].as_str()) {
            Some(ItemKind::MeleeWeapon { damage }) => {
                best = match best {
                    Some(b) => Some(
                        if *damage >= b {
                            *damage
                        } else {
                            b
                        },
                    ),
                    None => Some(*damage),
                };
            },
            _ => {},
        }
        k = k + 1;
    }
    proof {
        assert(items@.take(k as int) =~= items@);
    }
    match best {
        Some(b) => b,
        None => 1,
    }
}

/// The hunter's strike multiplier in halves.
fn multiplier_of(cat: &Catalogue) -> (n: u32)
    ensures
        n == power_numerator(cat),
{
    let ms = &cat.hunter.manoeuvres;
    let mut k: usize = 0;
    proof {
        assert(ms@.skip(0) =~= ms@);
    }
    while k < ms.len()
        invariant
            ms == &cat.hunter.manoeuvres,
            k <= ms.len(),
            first_multiplier(ms@) == first_multiplier(ms@.skip(k as int)),
        decreases ms.len() - k,
    {
        proof {
            lemma_skip_step(ms@, k as int);
        }
        match ms[k].effect {
            ManoeuvreEffect::MeleeDamageMultiplier { numerator } => {
                return numerator as u32;
            },
            _ => {},
        }
        k = k + 1;
    }
    MULTIPLIER_HALVES as u32
}

fn is_kind(e: SignatureEffect, kind: u8) -> (r: bool)
    ensures
        r == signature_is(e, kind as int),
{
    match e {
        SignatureEffect::SetSnare => kind == 0,
        SignatureEffect::KillingBlow => kind == 1,
        SignatureEffect::WardTheGround { .. } => kind == 2,
        _ => false,
    }
}

/// Whether the loadout can pay for the hunter's signature of this kind.
fn affords_kind(cat: &Catalogue, l: &HuntLoadout, kind: u8) -> (r: bool)
    ensures
        r == affords(cat, *l, kind as int),
{
    let sigs = &cat.hunter.signatures;
    let mut k: usize = 0;
    proof {
        assert(sigs@.skip(0) =~= sigs@);
    }
    while k < sigs.len()
        invariant
            sigs == &cat.hunter.signatures,
            k <= sigs.len(),
            first_cost(sigs@, kind as int) == first_cost(sigs@.skip(k as int), kind as int),
        decreases sigs.len() - k,
    {
        proof {
            lemma_skip_step(sigs@, k as int);
        }
        if is_kind(sigs[k].effect, kind) {
            return l.physical >= sigs[k].physical_cost;
        }
        k = k + 1;
    }
    false
}

/// The second the loadout can call in, as `(turns, damage_per_turn)`.
fn second_of(cat: &Catalogue, l: &HuntLoadout) -> (r: Option<(u8, u16)>)
    ensures
        r == second(cat, *l),
{
    let sigs = &cat.hunter.signatures;
    let mut k: usize = 0;
    proof {
        assert(sigs@.skip(0) =~= sigs@);
    }
    while k < sigs.len()
        invariant
            sigs == &cat.hunter.signatures,
            k <= sigs.len(),
            first_second(sigs@, l.physical) == first_second(sigs@.skip(k as int), l.physical),
        decreases sigs.len() - k,
    {
        proof {
            lemma_skip_step(sigs@, k as int);
        }
        match sigs[k].effect {
            SignatureEffect::SecondInTheFight { turns, damage_per_turn } => {
                if l.physical >= sigs[k].physical_cost {
                    return Some((turns, damage_per_turn));
                }
            },
            _ => {},
        }
        k = k + 1;
    }
    None
}

proof fn lemma_bonus_upto_monotone(bs: Seq<TierBehaviour>, j: int, k: int)
    requires
        0 <= j <= k,
    ensures
        0 <= bonus_upto(bs, j) <= bonus_upto(bs, k),
    decreases k,
{
    if k > j {
        lemma_bonus_upto_monotone(bs, j, k - 1);
    } else if k > 0 {
        lemma_bonus_upto_monotone(bs, 0, k - 1);
    }
}

/// The bonus melee damage the villain's tier behaviours add at `tier`.
fn tier_damage_of(v: &VillainDef, tier: u8) -> (r: u16)
    requires
        fits_u16(tier_damage(*v, tier)),
    ensures
        r == tier_damage(*v, tier),
{
    let bs = &v.tier_behaviours;
    let n: usize = if (tier as usize) <= bs.len() {
        tier as usize
    } else {
        bs.len()
    };
    let mut sum: u16 = 0;
    let mut k: usize = 0;
    while k < n
        invariant
            bs == &v.tier_behaviours,
            n <= bs.len(),
            n == (if tier as int <= bs@.len() {
                tier as int
            } else {
                bs@.len() as int
            }),
            k <= n,
            sum == bonus_upto(bs@, k as int),
            fits_u16(bonus_upto(bs@, n as int)),
        decreases n - k,
    {
        proof {
            lemma_bonus_upto_monotone(bs@, k + 1, n as int);
        }
        match bs[k].effect {
            TierEffect::BonusMeleeDamage { amount } => {
                sum = sum + amount;
            },
            _ => {},
        }
        k = k + 1;
    }
    sum
}

fn at_least_u32(v: u32, floor: u32) -> (r: u32)
    ensures
        r == at_least(v as int, floor as int),
{
    if v >= floor {
        v
    } else {
        floor
    }
}

/// Turns to kill a hex-warded villain.
fn ward_kill(cat: &Catalogue, v: &VillainDef, l: &HuntLoadout, melee: u32, hp: u32) -> (r: i32)
    requires
        v.ward is Some,
        melee == melee_dpt(cat, *l),
        hp <= 65535000,
        kill_fits(cat, *v, *l, hp as int),
    ensures
        r == ward_turns(cat, *v, *l, hp as int),
        1 <= r <= 65535000,
{
    let hit = cat.balance.combat.melee_hit_percent as u32;
    let ward = v.ward.as_ref().unwrap();
    let blade = match kind_of(cat, v.weakness_item.as_str()) {
        Some(ItemKind::WeaknessBlade { damage }) => Some(*damage as u32),
        _ => None,
    };
    assert(match counter_blade_damage(cat, *v) {
        Some(b) => blade == Some(b as u32),
        None => blade is None,
    });
    if l.counter_blades > 0 && blade.is_some() {
        let b = blade.unwrap();
        let dpt = at_least_u32(b * 1000 * hit / 100, 100);
        let turns = hp / dpt;
        proof {
            lemma_div_is_ordered_by_denominator(hp as int, 1, dpt as int);
        }
        if turns >= 1 {
            turns as i32
        } else {
            1
        }
    } else {
        let cycle_turns: u32 = ward.charges as u32 + ward.reweave_turns as u32;
        let cycle_damage: u32 = ward.charges as u32 * ward.leak_damage as u32 * 1000 + ward.reweave_turns as u32 * melee;
        let average = at_least_u32(cycle_damage / at_least_u32(cycle_turns, 1), 100);
        let turns = hp / average;
        proof {
            lemma_div_is_ordered_by_denominator(hp as int, 1, average as int);
        }
        if turns >= 1 {
            turns as i32
        } else {
            1
        }
    }
}

/// Turns to kill an always-woundable, regenerating villain.
fn regen_kill(cat: &Catalogue, v: &VillainDef, l: &HuntLoadout, melee: u32, hp: u32) -> (r: i32)
    requires
        melee == melee_dpt(cat, *l),
        hp <= 65535000,
    ensures
        r == regen_turns(cat, *v, *l, hp as int),
        1 <= r <= 65535002,
{
    let mut effective_hp: u32 = hp;
    let mut setup: i32 = 0;
    let mut regen: u32 = match &v.regeneration {
        Some(r) => r.per_turn as u32 * 1000,
        None => 0,
    };
    if l.silver_bullets > 0 {
        match kind_of(cat, v.weakness_item.as_str()) {
            Some(ItemKind::WeaknessAmmunition { damage, stops_regeneration }) => {
                let blow: u32 = *damage as u32 * 1000;
                effective_hp = if effective_hp >= blow {
                    effective_hp - blow
                } else {
                    0
                };
                if *stops_regeneration {
                    regen = 0;
                }
                setup = setup + 2;
            },
            _ => {},
        }
    }
    let net = at_least_u32(
        if melee >= regen {
            melee - regen
        } else {
            0
        },
        100,
    );
    proof {
        lemma_div_is_ordered_by_denominator(effective_hp as int, 1, net as int);
    }
    let mut turns: i32 = (effective_hp / net) as i32 + setup;
    if affords_kind(cat, l, 1) {
        turns = turns - 2;
    }
    if turns >= 1 {
        turns
    } else {
        1
    }
}

/// Turns to kill a villain woundable only in its cadence windows.
fn cadence_kill(cat: &Catalogue, v: &VillainDef, l: &HuntLoadout, melee: u32, blade_dmg: u16, power: u32, hp: u32) -> (r: i32)
    requires
        v.ward is None,
        v.cadence is Some,
        melee == melee_dpt(cat, *l),
        blade_dmg == blade(cat),
        power == power_numerator(cat),
        hp <= 65535000,
        kill_fits(cat, *v, *l, hp as int),
    ensures
        r == cadence_turns(cat, *v, *l, hp as int),
        1 <= r <= 200000000,
{
    let c = v.cadence.as_ref().unwrap();
    let vulnerable: u32 = melee * (VULNERABILITY_MULTIPLIER as u32);
    let mut remaining: u32 = hp;
    let mut turns: i32 = 0;
    if l.dormant_opening {
        let finisher: u32 = if affords_kind(cat, l, 1) {
            KILLING_BLOW_MULTIPLIER as u32
        } else {
            1
        };
        let base: u32 = blade_dmg as u32 * power * 1000 / (MULTIPLIER_HALVES as u32);
        proof {
            assert(finisher <= 2);
            assert(base * finisher * 3 == coup_opener(cat, *l));
            assert(base * finisher <= base * finisher * 3) by (nonlinear_arith)
                requires
                    base >= 0,
                    finisher >= 0,
            ;
        }
        let opener: u32 = base * finisher * (COUP_MULTIPLIER as u32);
        remaining = if remaining >= opener {
            remaining - opener
        } else {
            0
        };
        turns = turns + 1;
    }
    let ghost opened = turns as int;
    let ghost rem0 = remaining as int;
    if l.on_consecrated_ground {
        let dpt = at_least_u32(vulnerable + c.consecrated_damage_per_turn as u32 * 1000, 100);
        proof {
            lemma_div_is_ordered_by_denominator(remaining as int, 1, dpt as int);
        }
        turns = turns + (remaining / dpt) as i32 + 1;
    } else {
        proof {
            assert(l.binding_charms * c.bound_vulnerable_turns <= 65535 * 255) by (nonlinear_arith)
                requires
                    l.binding_charms <= 65535,
                    c.bound_vulnerable_turns <= 255,
            ;
        }
        let charm_turns: u32 = l.binding_charms as u32 * c.bound_vulnerable_turns as u32;
        proof {
            assert(charm_turns * vulnerable == l.binding_charms * c.bound_vulnerable_turns * vulnerable_dpt(cat, *l));
        }
        let charm_damage: u32 = charm_turns * vulnerable;
        let placing: i32 = if l.binding_charms > 0 {
            1
        } else {
            0
        };
        if charm_damage >= remaining {
            let floor = at_least_u32(vulnerable, 100);
            proof {
                lemma_div_is_ordered_by_denominator(remaining as int, 1, floor as int);
            }
            turns = turns + (remaining / floor) as i32 + placing;
        } else {
            remaining = remaining - charm_damage;
            let guarded = at_least_u32(vulnerable / (c.period as u32), 100);
            proof {
                lemma_div_is_ordered_by_denominator(remaining as int, 1, guarded as int);
                assert(charm_turns <= 65535 * 255) by (nonlinear_arith)
                    requires
                        charm_turns == l.binding_charms * c.bound_vulnerable_turns,
                        l.binding_charms <= 65535,
                        c.bound_vulnerable_turns <= 255,
                ;
            }
            turns = turns + charm_turns as i32 + placing + (remaining / guarded) as i32;
        }
    }
    proof {
        assert(turns == opened + cadence_rest(cat, *c, *l, rem0));
    }
    if turns >= 1 {
        turns
    } else {
        1
    }
}

/// Turns the hunter needs to kill the villain.
fn kill_turns(cat: &Catalogue, v: &VillainDef, l: &HuntLoadout, melee: u32, blade_dmg: u16, power: u32, hp: u32) -> (r: i32)
    requires
        melee == melee_dpt(cat, *l),
        blade_dmg == blade(cat),
        power == power_numerator(cat),
        hp <= 65535000,
        kill_fits(cat, *v, *l, hp as int),
    ensures
        r == turns_to_kill(cat, *v, *l, hp as int),
        1 <= r <= 200000000,
{
    if v.ward.is_some() {
        ward_kill(cat, v, l, melee, hp)
    } else if v.cadence.is_none() {
        regen_kill(cat, v, l, melee, hp)
    } else {
        cadence_kill(cat, v, l, melee, blade_dmg, power, hp)
    }
}

/// Health a wound draught restores: the catalogue's, or 4.
fn draught_heal_of(cat: &Catalogue) -> (h: u16)
    ensures
        h == draught_heal(cat),
{
    proof {
        reveal_strlit("wound-draught");
    }
    match kind_of(cat, "wound-draught") {
        Some(ItemKind::Draught { heal }) => *heal,
        _ => 4,
    }
}

/// Estimated final-fight viability in permille (750 = 75%).
pub fn hunt_viability(catalogue: &Catalogue, villain_id: &str, tier: u8, loadout: &HuntLoadout) -> (r: u16)
    requires
        hunt_viability_fits(catalogue, villain_id@, tier, *loadout),
    ensures
        r == spec_hunt_viability(catalogue, villain_id@, tier, *loadout),
{
    let villain = match catalogue.villains.get(villain_id) {
        Some(v) => v,
        None => return 0,
    };
    let ghost v = *villain;
    let ghost l = *loadout;
    let combat = &catalogue.balance.combat;
    let hit = combat.melee_hit_percent as u32;

    // --- Hunter offence: expected damage per turn, in millis. -------------
    let blade_dmg = blade_of(catalogue);
    let power = multiplier_of(catalogue);
    let mut melee: u32 = blade_dmg as u32 * 1000 * hit / 100;
    let has_snare = affords_kind(catalogue, loadout, 0);
    let has_ward = affords_kind(catalogue, loadout, 2);
    let second_in = second_of(catalogue, loadout);
    if has_ward {
        melee = melee + combat.ground_ward_damage as u32 * 1000 / 2;
    }
    match second_in {
        Some((_, damage)) => {
            melee = melee + damage as u32 * 1000 * hit / 100 / 2;
        },
        None => {},
    }
    assert(melee == melee_dpt(catalogue, l));

    // --- Villain durability and offence. -----------------------------------
    let capped: u16 = if tier <= 2 {
        tier as u16
    } else {
        2
    };
    let villain_hp: u32 = (villain.health + villain.tier_bonus_health * capped) as u32 * 1000;
    proof {
        let n = if tier as int <= v.tier_behaviours@.len() {
            tier as int
        } else {
            v.tier_behaviours@.len() as int
        };
        lemma_bonus_upto_monotone(v.tier_behaviours@, 0, n);
    }
    let tier_dmg = tier_damage_of(villain, tier);
    proof {
        let x = villain.melee_damage + tier_dmg;
        assert(x * 10 * villain.hit_percent <= 65535 * 10 * 255) by (nonlinear_arith)
            requires
                0 <= x <= 65535,
                villain.hit_percent <= 255,
        ;
    }
    let mut incoming_dpt: u32 = (villain.melee_damage + tier_dmg) as u32 * 10 * villain.hit_percent as u32;
    proof {
        assert(incoming_dpt == raw_incoming(v, tier));
        assert(incoming_dpt <= 65535 * 10 * 255);
    }
    if has_snare {
        incoming_dpt = incoming_dpt * 9 / 10;
    } else if has_ward {
        incoming_dpt = incoming_dpt * 19 / 20;
    }
    incoming_dpt = at_least_u32(incoming_dpt, 100);
    assert(incoming_dpt == incoming(catalogue, v, tier, l));

    // --- Turns to kill. ------------------------------------------------------
    let ttk = kill_turns(catalogue, villain, loadout, melee, blade_dmg, power, villain_hp);

    // --- Turns the hunter survives. -----------------------------------------
    let heal = draught_heal_of(catalogue);
    let effective: u32 = (loadout.hunter_hp + heal * loadout.draughts) as u32 * 1000;
    proof {
        lemma_div_is_ordered_by_denominator(effective as int, 1, incoming_dpt as int);
    }
    let mut survive_turns: i32 = (effective / incoming_dpt) as i32;
    if has_snare {
        let held: i32 = if loadout.physical <= 2 {
            loadout.physical as i32
        } else {
            2
        };
        survive_turns = survive_turns + held * 3;
    } else if has_ward {
        survive_turns = survive_turns + 5;
    }
    match second_in {
        Some((turns, _)) => {
            survive_turns = survive_turns + (turns as i32) / 2;
        },
        None => {},
    }
    survive_turns = survive_turns - loadout.draughts as i32;
    if loadout.on_consecrated_ground {
        survive_turns = survive_turns + 1;
    }
    assert(survive_turns == survive(catalogue, l, incoming_dpt as int));
    proof {
        let d = survive_turns - ttk;
        assert(fits_i32(d * 75));
        assert(i32::MIN <= d <= i32::MAX) by (nonlinear_arith)
            requires
                i32::MIN <= d * 75 <= i32::MAX,
        {
        }
    }
    let viability: i32 = 500 + (survive_turns - ttk) * 75;
    if viability < 0 {
        0
    } else if viability > 1000 {
        1000
    } else {
        viability as u16
    }
}

// ---------------------------------------------------------------------------
// A higher threat tier never makes the hunt look better.
// ---------------------------------------------------------------------------
proof fn lemma_melee_dpt_nonneg(cat: &Catalogue, l: HuntLoadout)
    ensures
        melee_dpt(cat, l) >= 0,
        vulnerable_dpt(cat, l) >= 0,
{
    let hit = cat.balance.combat.melee_hit_percent as int;
    assert(blade(cat) >= 0);
    assert(blade(cat) * 1000 * hit >= 0) by (nonlinear_arith)
        requires
            blade(cat) >= 0,
            hit >= 0,
    ;
    match second(cat, l) {
        Some((_, d)) => {
            assert(d * 1000 * hit >= 0) by (nonlinear_arith)
                requires
                    d >= 0,
                    hit >= 0,
            ;
        },
        None => {},
    }
}

proof fn lemma_villain_hp_monotone(v: VillainDef, t1: u8, t2: u8)
    requires
        t1 <= t2,
    ensures
        0 <= villain_hp(v, t1) <= villain_hp(v, t2),
{
    lemma_mul_inequality(capped_tier(t1), capped_tier(t2), v.tier_bonus_health as int);
    assert(v.tier_bonus_health * capped_tier(t1) == capped_tier(t1) * v.tier_bonus_health);
    assert(v.tier_bonus_health * capped_tier(t2) == capped_tier(t2) * v.tier_bonus_health);
    assert(capped_tier(t1) * v.tier_bonus_health >= 0) by (nonlinear_arith)
        requires
            capped_tier(t1) >= 0,
            v.tier_bonus_health >= 0,
    ;
}

proof fn lemma_incoming_monotone(cat: &Catalogue, v: VillainDef, t1: u8, t2: u8, l: HuntLoadout)
    requires
        t1 <= t2,
    ensures
        100 <= incoming(cat, v, t1, l) <= incoming(cat, v, t2, l),
{
    let bs = v.tier_behaviours@;
    let n1 = if t1 as int <= bs.len() {
        t1 as int
    } else {
        bs.len() as int
    };
    let n2 = if t2 as int <= bs.len() {
        t2 as int
    } else {
        bs.len() as int
    };
    lemma_bonus_upto_monotone(bs, n1, n2);
    let a1 = v.melee_damage + tier_damage(v, t1);
    let a2 = v.melee_damage + tier_damage(v, t2);
    let h = v.hit_percent as int;
    assert(a1 * 10 * h <= a2 * 10 * h) by (nonlinear_arith)
        requires
            0 <= a1 <= a2,
            h >= 0,
    ;
    assert(a1 * 10 * h >= 0) by (nonlinear_arith)
        requires
            0 <= a1,
            h >= 0,
    ;
    let r1 = raw_incoming(v, t1);
    let r2 = raw_incoming(v, t2);
    lemma_div_is_ordered(r1 * 9, r2 * 9, 10);
    lemma_div_is_ordered(r1 * 19, r2 * 19, 20);
}

proof fn lemma_survive_monotone(cat: &Catalogue, l: HuntLoadout, i1: int, i2: int)
    requires
        1 <= i1 <= i2,
    ensures
        survive(cat, l, i2) <= survive(cat, l, i1),
{
    assert(effective_hp(cat, l) >= 0) by (nonlinear_arith)
        requires
            l.hunter_hp >= 0,
            draught_heal(cat) >= 0,
            l.draughts >= 0,
            effective_hp(cat, l) == (l.hunter_hp + draught_heal(cat) * l.draughts) * 1000,
    ;
    lemma_div_is_ordered_by_denominator(effective_hp(cat, l), i1, i2);
}

proof fn lemma_sat_sub_monotone(a1: int, a2: int, b: int)
    requires
        a1 <= a2,
    ensures
        sat_sub(a1, b) <= sat_sub(a2, b),
{
}

proof fn lemma_cadence_rest_monotone(cat: &Catalogue, c: CadenceDef, l: HuntLoadout, r1: int, r2: int)
    requires
        0 <= r1 <= r2,
    ensures
        cadence_rest(cat, c, l, r1) <= cadence_rest(cat, c, l, r2),
{
    lemma_melee_dpt_nonneg(cat, l);
    let vdpt = vulnerable_dpt(cat, l);
    if l.on_consecrated_ground {
        lemma_div_is_ordered(r1, r2, at_least(vdpt + c.consecrated_damage_per_turn * 1000, 100));
    } else {
        let ct = l.binding_charms * c.bound_vulnerable_turns;
        let cd = ct * vdpt;
        let vf = at_least(vdpt, 100);
        let g = at_least(vdpt / (c.period as int), 100);
        assert(ct >= 0) by (nonlinear_arith)
            requires
                l.binding_charms >= 0,
                c.bound_vulnerable_turns >= 0,
                ct == l.binding_charms * c.bound_vulnerable_turns,
        ;
        if cd >= r2 {
            lemma_div_is_ordered(r1, r2, vf);
        } else if cd < r1 {
            lemma_div_is_ordered(r1 - cd, r2 - cd, g);
        } else {
            lemma_div_is_ordered(r1, cd, vf);
            assert(cd <= ct * vf) by (nonlinear_arith)
                requires
                    cd == ct * vdpt,
                    0 <= vdpt <= vf,
                    ct >= 0,
            ;
            lemma_div_is_ordered(cd, ct * vf, vf);
            vstd::arithmetic::div_mod::lemma_div_multiples_vanish(ct, vf);
            assert(ct * vf == vf * ct) by (nonlinear_arith);
            assert((r2 - cd) / g >= 0) by (nonlinear_arith)
                requires
                    r2 - cd > 0,
                    g >= 100,
            ;
        }
    }
}

proof fn lemma_turns_to_kill_monotone(cat: &Catalogue, v: VillainDef, l: HuntLoadout, h1: int, h2: int)
    requires
        0 <= h1 <= h2,
    ensures
        turns_to_kill(cat, v, l, h1) <= turns_to_kill(cat, v, l, h2),
{
    lemma_melee_dpt_nonneg(cat, l);
    if v.ward is Some {
        let hit = cat.balance.combat.melee_hit_percent as int;
        let ward = v.ward.unwrap();
        match (l.counter_blades > 0, counter_blade_damage(cat, v)) {
            (true, Some(b)) => {
                lemma_div_is_ordered(h1, h2, at_least(b * 1000 * hit / 100, 100));
            },
            _ => {
                let cycle_turns = ward.charges + ward.reweave_turns;
                let cycle_damage = ward.charges * ward.leak_damage * 1000 + ward.reweave_turns * melee_dpt(cat, l);
                lemma_div_is_ordered(h1, h2, at_least(cycle_damage / at_least(cycle_turns, 1), 100));
            },
        }
    } else if v.cadence is None {
        let regen = match v.regeneration {
            Some(r) => r.per_turn * 1000,
            None => 0,
        };
        let net_regen = match silver_round(cat, v, l) {
            Some((damage, stops)) => if stops {
                0
            } else {
                regen
            },
            None => regen,
        };
        let net = at_least(sat_sub(melee_dpt(cat, l), net_regen), 100);
        match silver_round(cat, v, l) {
            Some((damage, stops)) => {
                lemma_sat_sub_monotone(h1, h2, damage * 1000);
                lemma_div_is_ordered(sat_sub(h1, damage * 1000), sat_sub(h2, damage * 1000), net);
            },
            None => {
                lemma_div_is_ordered(h1, h2, net);
            },
        }
    } else {
        let c = v.cadence.unwrap();
        if l.dormant_opening {
            let o = coup_opener(cat, l);
            lemma_sat_sub_monotone(h1, h2, o);
            lemma_cadence_rest_monotone(cat, c, l, sat_sub(h1, o), sat_sub(h2, o));
        } else {
            lemma_cadence_rest_monotone(cat, c, l, h1, h2);
        }
    }
}

/// A higher threat tier never makes the estimate better: the villain only
/// gains health and offence as its scheme escalates.
pub proof fn lemma_higher_tier_never_improves_viability(
    cat: &Catalogue,
    villain_id: Seq<char>,
    t1: u8,
    t2: u8,
    l: HuntLoadout,
)
    requires
        t1 <= t2,
    ensures
        spec_hunt_viability(cat, villain_id, t2, l) <= spec_hunt_viability(cat, villain_id, t1, l),
{
    match cat.villains.lookup(villain_id) {
        Some(v) => {
            lemma_villain_hp_monotone(v, t1, t2);
            lemma_turns_to_kill_monotone(cat, v, l, villain_hp(v, t1), villain_hp(v, t2));
            lemma_incoming_monotone(cat, v, t1, t2, l);
            lemma_survive_monotone(cat, l, incoming(cat, v, t1, l), incoming(cat, v, t2, l));
            let k1 = turns_to_kill(cat, v, l, villain_hp(v, t1));
            let k2 = turns_to_kill(cat, v, l, villain_hp(v, t2));
            let s1 = survive(cat, l, incoming(cat, v, t1, l));
            let s2 = survive(cat, l, incoming(cat, v, t2, l));
            assert((s2 - k2) * 75 <= (s1 - k1) * 75) by (nonlinear_arith)
                requires
                    s2 - k2 <= s1 - k1,
            ;
        },
        None => {},
    }
}

/// A tier's health bonus is simply more health to cut through: the
/// estimate against a villain at a tier equals the estimate against the
/// same villain with that tier's bonus (counted for two tiers at most)
/// folded into its base health and no bonus left over.
pub proof fn lemma_tier_bonus_is_more_health(cat: &Catalogue, v: VillainDef, tier: u8, l: HuntLoadout)
    requires
        v.health + v.tier_bonus_health * (if tier <= 2 {
            tier as int
        } else {
            2int
        }) <= u16::MAX,
    ensures
        ({
            let grown = v.health + v.tier_bonus_health * (if tier <= 2 {
                tier as int
            } else {
                2int
            });
            let folded = VillainDef { health: grown as u16, tier_bonus_health: 0, ..v };
            viability_of(cat, v, tier, l) == viability_of(cat, folded, tier, l)
        }),
{
    let grown = v.health + v.tier_bonus_health * (if tier <= 2 {
        tier as int
    } else {
        2int
    });
    let folded = VillainDef { health: grown as u16, tier_bonus_health: 0, ..v };
    assert(villain_hp(v, tier) == villain_hp(folded, tier));
    let hp = villain_hp(v, tier);
    assert(turns_to_kill(cat, v, l, hp) == turns_to_kill(cat, folded, l, hp));
    assert(incoming(cat, v, tier, l) == incoming(cat, folded, tier, l));
}

} // verus!
