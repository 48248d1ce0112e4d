use rogue_hunter::geometry::Point;
use rogue_hunter::schema::{MapRole, Terrain};
use rogue_hunter::world::{
    link_key, FeatureId, FeatureKind, FeatureSpec, GraveContents, MapId, NpcId, VillainSpec, World, WorldMap,
};

fn map(role: MapRole, template: &str) -> WorldMap {
    WorldMap {
        template: template.to_owned(),
        name: template.to_owned(),
        role,
        tiles: vec![Terrain::Floor; 32 * 20],
        exits: vec![],
        features: vec![
            FeatureSpec {
                id: FeatureId(4),
                at: Point::new(2, 3),
                kind: FeatureKind::Grave { contents: GraveContents::Mundane },
                name: "Old grave".to_owned(),
            },
            FeatureSpec { id: FeatureId(7), at: Point::new(2, 3), kind: FeatureKind::Altar, name: "Altar".to_owned() },
        ],
        consecration_area: vec![],
        entry: Point::new(1, 1),
        initial_enemies: vec![],
    }
}

fn world() -> World {
    World {
        seed: 11,
        villain: VillainSpec {
            archetype: "werewolf".to_owned(),
            origin: "cursed".to_owned(),
            scheme: "feast".to_owned(),
            title: "the thing".to_owned(),
            host: Some(NpcId(1)),
            grave: None,
            lair: (MapId(1), Point::new(4, 4)),
        },
        maps: vec![
            map(MapRole::Settlement, "settlement"),
            map(MapRole::Wilderness, "wilderness"),
            map(MapRole::Wilderness, "wilderness-gorge"),
        ],
        npcs: vec![],
        opportunities: vec![],
        ambush_percent: 20,
        certified_routes: vec![],
    }
}

#[test]
fn maps_are_found_by_role() {
    let w = world();
    assert_eq!(w.map_by_role(MapRole::Settlement), MapId(0));
    assert_eq!(w.map_by_role(MapRole::Wilderness), MapId(1));
    assert_eq!(w.map_by_role(MapRole::OutlyingSite), MapId(0), "absent roles fall back to the first map");
    assert_eq!(w.map(MapId(2)).template, "wilderness-gorge");
}

#[test]
fn terrain_reads_and_writes_in_bounds_only() {
    let mut m = map(MapRole::Settlement, "settlement");
    assert_eq!(m.terrain(Point::new(3, 2)), Terrain::Floor);
    assert_eq!(m.terrain(Point::new(-1, 2)), Terrain::Wall);
    assert_eq!(m.terrain(Point::new(3, 20)), Terrain::Wall);
    m.set_terrain(Point::new(3, 2), Terrain::Rubble);
    assert_eq!(m.terrain(Point::new(3, 2)), Terrain::Rubble);
    assert_eq!(m.tiles[2 * 32 + 3], Terrain::Rubble);
    m.set_terrain(Point::new(40, 2), Terrain::Rubble);
    assert_eq!(m.tiles.iter().filter(|t| **t == Terrain::Rubble).count(), 1);
}

#[test]
fn features_are_found_by_place_and_id() {
    let m = map(MapRole::Settlement, "settlement");
    assert_eq!(m.feature_at(Point::new(2, 3)).map(|f| f.id), Some(FeatureId(4)), "the first feature there");
    assert!(m.feature_at(Point::new(9, 9)).is_none());
    assert_eq!(m.feature(FeatureId(7)).map(|f| f.name.as_str()), Some("Altar"));
    assert!(m.feature(FeatureId(1)).is_none());
}

#[test]
fn link_keys_ignore_direction() {
    assert_eq!(link_key(NpcId(3), NpcId(1)), (NpcId(1), NpcId(3)));
    assert_eq!(link_key(NpcId(1), NpcId(3)), link_key(NpcId(3), NpcId(1)));
    assert_eq!(link_key(NpcId(2), NpcId(2)), (NpcId(2), NpcId(2)));
}
