use rogue_hunter::fov;
use rogue_hunter::keyed::KeyedMap;
use rogue_hunter::schema::{
    is_forceable, is_opaque, is_walkable, ChurchSlot, ClueCategory, ClueTemplate, ConditionAxis, ConditionDef,
    ConditionEffect, EvidenceAxis, MapRole, OpeningAnchor, OpeningDef, OpeningGrant, OpportunityAction, PoolKind,
    SiteKind, Terrain,
};
use rogue_hunter::strings::StringId;
use rogue_hunter::validate;

fn sid(text: &str) -> StringId {
    StringId(text.to_owned())
}

fn identity_clue(supports: &[&str], rules_out: &[&str], origins: &[&str]) -> ClueTemplate {
    let owned = |list: &[&str]| list.iter().map(|s| s.to_string()).collect::<Vec<_>>();
    ClueTemplate {
        name: sid("c"),
        category: ClueCategory::Identity,
        supports: owned(supports),
        rules_out: owned(rules_out),
        villains: vec![],
        origins: owned(origins),
        schemes: vec![],
        action: OpportunityAction::Examine,
        pool: PoolKind::Lore,
        site: SiteKind::KillSite,
        church_slot: None,
        obscurity: 0,
        grants_items: vec![],
        prompt: sid("p"),
        reveal: sid("r"),
    }
}

#[test]
fn a_clue_fits_the_cases_its_lists_admit() {
    let clue = identity_clue(&["werewolf"], &["revenant"], &["cursed"]);
    assert!(clue.is_discriminating());
    assert!(clue.fits("werewolf", "cursed", "feast"));
    assert!(!clue.fits("revenant", "cursed", "feast"), "ruled out on its own axis");
    assert!(!clue.fits("werewolf", "plague", "feast"), "scoped to another origin");
    let soft = identity_clue(&[], &[], &[]);
    assert!(!soft.is_discriminating());
    assert!(soft.fits("witch", "plague", "feast"));
    assert_eq!(ClueCategory::Identity.axis(), Some(EvidenceAxis::Villain));
    assert_eq!(ClueCategory::Location.axis(), None);
}

#[test]
fn content_names_for_roles_and_slots() {
    assert_eq!(MapRole::from_content("settlement"), Some(MapRole::Settlement));
    assert_eq!(MapRole::from_content("outlying"), Some(MapRole::OutlyingSite));
    assert_eq!(MapRole::from_content("outlying-site"), Some(MapRole::OutlyingSite));
    assert_eq!(MapRole::from_content("moon"), None);
    assert_eq!(MapRole::OutlyingSite.label(), "outlying");
    assert_eq!(ChurchSlot::Candles.slot_id(), "church-candles");
    assert_eq!(ChurchSlot::Records.slot_id(), "church-records");
}

#[test]
fn conditions_are_banes_boons_or_texture() {
    let condition = |effect| ConditionDef { id: "c".to_owned(), axis: ConditionAxis::Hour, effect, body: vec![] };
    let bane = condition(Some(ConditionEffect::Ambush { percent: 10 }));
    let boon = condition(Some(ConditionEffect::LongSight { tiles: 2 }));
    let texture = condition(None);
    assert!(bane.is_bane() && !bane.is_boon() && !bane.is_cosmetic());
    assert!(boon.is_boon() && !boon.is_bane() && !boon.is_cosmetic());
    assert!(texture.is_cosmetic() && !texture.is_bane() && !texture.is_boon());
    assert!(ConditionEffect::SocialSurcharge.is_certification_visible());
    assert!(!ConditionEffect::Pressure { extra: 1 }.is_certification_visible());
}

#[test]
fn openings_match_on_both_keys() {
    let opening = OpeningDef {
        id: "o".to_owned(),
        anchor: Some(OpeningAnchor::Npc),
        grant: Some(OpeningGrant::Lead),
        body: vec![],
    };
    assert!(opening.matches(OpeningAnchor::Npc, OpeningGrant::Lead));
    assert!(!opening.matches(OpeningAnchor::Tile, OpeningGrant::Lead));
    assert!(!opening.is_generic());
    assert!(OpeningDef { anchor: None, grant: None, ..opening }.is_generic());
}

#[test]
fn terrain_kinds_agree_everywhere() {
    let all = [
        Terrain::Floor,
        Terrain::Wall,
        Terrain::Tree,
        Terrain::Water,
        Terrain::Grave,
        Terrain::Door,
        Terrain::BarredDoor,
        Terrain::Rubble,
        Terrain::Road,
        Terrain::Grass,
        Terrain::Altar,
        Terrain::Workstation,
    ];
    for t in all {
        assert_eq!(is_walkable(t), fov::is_walkable(t));
        assert_eq!(is_walkable(t), validate::is_walkable(t));
        assert_eq!(is_opaque(t), fov::is_opaque(t));
        assert_eq!(is_opaque(t), validate::is_opaque(t));
        assert_eq!(is_forceable(t), validate::is_forceable(t));
        assert!(!(is_opaque(t) && is_walkable(t)), "nothing both blocks sight and can be stood on");
    }
    assert!(is_walkable(Terrain::Grave));
    assert!(is_forceable(Terrain::Rubble) && is_opaque(Terrain::Rubble));
    assert!(!is_walkable(Terrain::Water) && !is_opaque(Terrain::Water));
}

#[test]
fn a_keyed_table_reads_back_what_was_written() {
    let mut table: KeyedMap<u16> = KeyedMap::new();
    assert_eq!(table.insert("wolf".to_owned(), 3), None);
    assert_eq!(table.insert("bat".to_owned(), 1), None);
    assert_eq!(table.insert("wolf".to_owned(), 4), Some(3));
    assert_eq!(table.get("wolf"), Some(&4));
    assert_eq!(table.len(), 2);
    assert_eq!(table.entry(0).0, "bat", "entries are kept in key order");
    assert_eq!(table.remove("bat"), Some(1));
    assert_eq!(table.remove("bat"), None);
    assert!(!table.contains_key("bat"));
    assert_eq!(table.find("wolf"), Some(0));
}
