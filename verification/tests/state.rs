use rogue_hunter::geometry::Point;
use rogue_hunter::keyed::KeyedMap;
use rogue_hunter::schema::PoolKind;
use rogue_hunter::state::{Corroboration, GroundWard, HunterState};
use rogue_hunter::world::MapId;

fn hunter() -> HunterState {
    HunterState {
        pos: Point::new(3, 4),
        hp: 12,
        max_hp: 12,
        lore: 2,
        social: 2,
        mystic: 1,
        mystic_bonus: 1,
        physical: 2,
        stamina: 6,
        inventory: KeyedMap::new(),
        sure_shot: false,
        melee_multiplier: None,
        favour_used: false,
        second_turns: 0,
        second_damage: 0,
    }
}

#[test]
fn mystic_counts_the_favour_point() {
    let h = hunter();
    assert_eq!(h.pool(PoolKind::Mystic), 2);
    assert_eq!(h.pool(PoolKind::Lore), 2);
    assert_eq!(h.pool(PoolKind::Physical), 2);
}

#[test]
fn spending_takes_the_favour_point_first_and_stops_at_empty() {
    let mut h = hunter();
    h.spend_pool(PoolKind::Mystic, 1);
    assert_eq!((h.mystic, h.mystic_bonus), (1, 0));
    h.spend_pool(PoolKind::Mystic, 5);
    assert_eq!(h.pool(PoolKind::Mystic), 0);
    h.spend_pool(PoolKind::Lore, 3);
    assert_eq!(h.lore, 0);
    assert_eq!(h.social, 2, "other pools are untouched");
    let mut h = hunter();
    h.spend_pool(PoolKind::Mystic, 2);
    assert_eq!((h.mystic, h.mystic_bonus), (0, 0));
}

#[test]
fn items_are_added_and_removed_by_count() {
    let mut h = hunter();
    assert_eq!(h.item_count("silver-bullet"), 0);
    h.add_item("silver-bullet", 2);
    h.add_item("silver-bullet", 1);
    assert_eq!(h.item_count("silver-bullet"), 3);
    assert!(!h.remove_item("silver-bullet", 4), "short: nothing removed");
    assert_eq!(h.item_count("silver-bullet"), 3);
    assert!(h.remove_item("silver-bullet", 3));
    assert_eq!(h.item_count("silver-bullet"), 0);
    assert!(!h.inventory.contains_key("silver-bullet"), "an emptied item leaves the pack");
    assert!(!h.remove_item("silver-bullet", 0), "nothing to remove from");
}

#[test]
fn removing_what_was_added_restores_the_count() {
    let mut h = hunter();
    h.add_item("wound-draught", 1);
    h.add_item("coin", 5);
    assert!(h.remove_item("coin", 5));
    assert_eq!(h.item_count("wound-draught"), 1);
    assert_eq!(h.item_count("coin"), 0);
}

#[test]
fn corroboration_needs_a_decisive_proof() {
    let ambiguous = Corroboration { have: 2, need: 2, decisive: false };
    assert!(ambiguous.corroborated());
    assert!(!ambiguous.met());
    let decisive = Corroboration { decisive: true, ..ambiguous };
    assert!(decisive.met());
    let short = Corroboration { have: 1, need: 2, decisive: true };
    assert!(!short.met());
    assert!(!short.corroborated());
}

#[test]
fn a_ground_ward_covers_its_radius_on_its_map() {
    let ward = GroundWard { map: MapId(1), centre: Point::new(5, 5), radius: 2, turns_left: 3 };
    assert!(ward.covers(MapId(1), Point::new(7, 3)));
    assert!(!ward.covers(MapId(1), Point::new(8, 5)));
    assert!(!ward.covers(MapId(0), Point::new(5, 5)));
}
