use rogue_hunter::ai::{dash_cooldown, pounce_cooldown, tier_bonus_damage};
use rogue_hunter::schema::{Concealment, TierBehaviour, TierEffect, VillainDef};
use rogue_hunter::strings::StringId;

fn behaviour(effect: TierEffect) -> TierBehaviour {
    TierBehaviour { id: "t".to_owned(), name: StringId("t".to_owned()), effect, telegraph: StringId("t".to_owned()) }
}

fn villain() -> VillainDef {
    VillainDef {
        name: StringId("v".to_owned()),
        glyph: 'W',
        health: 10,
        melee_damage: 3,
        hit_percent: 70,
        tier_bonus_health: 2,
        tier_behaviours: vec![
            behaviour(TierEffect::BonusMeleeDamage { amount: 2 }),
            behaviour(TierEffect::PounceCooldown { turns: 2 }),
            behaviour(TierEffect::BonusMeleeDamage { amount: 3 }),
        ],
        concealment: Concealment::NpcHost,
        pounce: None,
        regeneration: None,
        cadence: None,
        ward: None,
        weakness_item: "silver-bullet".to_owned(),
        affected_by_consecration: false,
        description: StringId("v".to_owned()),
    }
}

#[test]
fn tiers_unlock_their_behaviours_in_order() {
    let v = villain();
    assert_eq!(tier_bonus_damage(&v, 0), 0);
    assert_eq!(tier_bonus_damage(&v, 1), 2);
    assert_eq!(tier_bonus_damage(&v, 3), 5);
    assert_eq!(tier_bonus_damage(&v, 9), 5);
    assert_eq!(pounce_cooldown(&v, 1, 4), 4);
    assert_eq!(pounce_cooldown(&v, 2, 4), 2);
    assert_eq!(pounce_cooldown(&v, 2, 1), 2, "an unlocked cooldown replaces the base");
    assert_eq!(dash_cooldown(&v, 3, 5), 5);
}
