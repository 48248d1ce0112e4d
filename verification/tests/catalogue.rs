use rogue_hunter::catalogue::{default_hunter, source_text, toml_stem, Catalogue, CatalogueParts, ContentError};
use rogue_hunter::keyed::KeyedMap;
use rogue_hunter::schema::{
    Balance, CadenceDef, CaseBalance, ClockBalance, ClueCategory, ClueTemplate, CombatBalance, Concealment,
    ConditionAxis, ConditionDef, GeneratorBalance, HunterDef, ItemDef, ItemKind, KeyBinding, LootBalance,
    ManoeuvreDef, ManoeuvreEffect, MapRole, MapTemplate, NpcCatalogue, OpeningAnchor, OpeningDef, OpportunityAction,
    PoolKind, PounceDef, RegenerationDef, SignatureDef, SignatureEffect, SiteKind, TierBehaviour, TierEffect, UiText,
    VillainDef, VisionBalance,
};
use rogue_hunter::client::{travel_confirm, Modal};
use rogue_hunter::command::{Command, Rejection, Target};
use rogue_hunter::fov::{has_clear_lane, has_line_of_sight, refresh_visibility};
use rogue_hunter::sim::Sim;
use rogue_hunter::state::ActorId;
use rogue_hunter::view::{run_cells, Cell, CellColor};
use rogue_hunter::world::OpportunityAnchor;
use rogue_hunter::geometry::Point;
use rogue_hunter::schema::{ExitDef, SlotDef, Terrain};
use rogue_hunter::state::{ActorKind, RngState, RunState, TerrainOverride};
use rogue_hunter::world::{
    Disposition, EnemySpawn, ExitSpec, MapId, NpcId, NpcSecret, NpcSpec, VillainSpec, World, WorldMap,
};
use rogue_hunter::strings::{StringId, StringTable};
use rogue_hunter::validate::validate;
use rogue_hunter::viability::{hunt_viability, HuntLoadout};

fn id(text: &str) -> StringId {
    StringId(text.to_owned())
}

fn balance() -> Balance {
    Balance {
        combat: CombatBalance {
            melee_hit_percent: 80,
            ranged_hit_percent: 70,
            trapped_attack_penalty_percent: 50,
            pounce_attack_bonus_percent: 20,
            snare_hold_turns: 2,
            ground_ward_damage: 2,
            stamina_regen_per_turn: 1,
            killing_blow_health_percent: 50,
        },
        clock: ClockBalance { travel_turns: 6, minor_event_turn: 2, major_event_turn: 4 },
        loot: LootBalance { drop_percent: 30 },
        generator: GeneratorBalance {
            early_route_deadline: 2,
            fallback_route_deadline: 4,
            fallback_obscurity_budget: 6,
            route_effort_budget: 12,
            route_travel_budget: 4,
            viability_threshold_permille: 650,
            ambush_percent_min: 10,
            ambush_percent_max: 30,
            min_cover_pockets_per_map: 0,
        },
        vision: VisionBalance { fov_radius: 8 },
        case: CaseBalance { corroborating_proofs: 2 },
    }
}

fn huntress() -> HunterDef {
    HunterDef {
        name: id("hunters.huntress.name"),
        title: id("hunters.huntress.title"),
        glyph: '@',
        health: 12,
        lore_cap: 2,
        social_cap: 2,
        mystic_cap: 0,
        physical_cap: 2,
        stamina_cap: 6,
        starting_items: vec!["hunting-knife".to_owned()],
        manoeuvres: vec![ManoeuvreDef {
            id: "power-attack".to_owned(),
            name: id("m.power.name"),
            stamina_cost: 2,
            effect: ManoeuvreEffect::MeleeDamageMultiplier { numerator: 3 },
            description: id("m.power.description"),
        }],
        signatures: vec![
            SignatureDef {
                id: "set-snare".to_owned(),
                name: id("s.snare.name"),
                physical_cost: 1,
                effect: SignatureEffect::SetSnare,
                description: id("s.snare.description"),
            },
            SignatureDef {
                id: "killing-blow".to_owned(),
                name: id("s.kb.name"),
                physical_cost: 1,
                effect: SignatureEffect::KillingBlow,
                description: id("s.kb.description"),
            },
        ],
    }
}

fn advocate() -> HunterDef {
    HunterDef {
        name: id("hunters.advocate.name"),
        title: id("hunters.advocate.title"),
        glyph: '@',
        health: 9,
        lore_cap: 1,
        social_cap: 3,
        mystic_cap: 0,
        physical_cap: 1,
        stamina_cap: 4,
        starting_items: vec!["hunting-knife".to_owned()],
        manoeuvres: vec![],
        signatures: vec![SignatureDef {
            id: "second".to_owned(),
            name: id("s.second.name"),
            physical_cost: 1,
            effect: SignatureEffect::SecondInTheFight { turns: 6, damage_per_turn: 2 },
            description: id("s.second.description"),
        }],
    }
}

fn item(kind: ItemKind) -> ItemDef {
    ItemDef { name: id("items.name"), glyph: '!', kind, description: id("items.description") }
}

fn tiers() -> Vec<TierBehaviour> {
    vec![
        TierBehaviour {
            id: "frenzy".to_owned(),
            name: id("t.frenzy"),
            effect: TierEffect::BonusMeleeDamage { amount: 1 },
            telegraph: id("t.frenzy.telegraph"),
        },
        TierBehaviour {
            id: "fury".to_owned(),
            name: id("t.fury"),
            effect: TierEffect::BonusMeleeDamage { amount: 1 },
            telegraph: id("t.fury.telegraph"),
        },
    ]
}

fn werewolf() -> VillainDef {
    VillainDef {
        name: id("villains.werewolf"),
        glyph: 'W',
        health: 14,
        melee_damage: 3,
        hit_percent: 70,
        tier_bonus_health: 4,
        tier_behaviours: tiers(),
        concealment: Concealment::NpcHost,
        pounce: Some(PounceDef { range: 3, cooldown: 3, telegraph: id("w.pounce") }),
        regeneration: Some(RegenerationDef { per_turn: 1, telegraph: id("w.regen") }),
        cadence: None,
        ward: None,
        weakness_item: "silver-bullet".to_owned(),
        affected_by_consecration: false,
        description: id("villains.werewolf.description"),
    }
}

fn revenant() -> VillainDef {
    VillainDef {
        name: id("villains.revenant"),
        glyph: 'R',
        health: 16,
        melee_damage: 3,
        hit_percent: 60,
        tier_bonus_health: 4,
        tier_behaviours: tiers(),
        concealment: Concealment::DormantGrave,
        pounce: None,
        regeneration: None,
        cadence: Some(CadenceDef {
            period: 3,
            dash_tiles: 2,
            bound_vulnerable_turns: 3,
            consecrated_damage_per_turn: 2,
            vulnerable_telegraph: id("r.vulnerable"),
            dash_telegraph: id("r.dash"),
            guarded_telegraph: id("r.guarded"),
        }),
        ward: None,
        weakness_item: "binding-charm".to_owned(),
        affected_by_consecration: true,
        description: id("villains.revenant.description"),
    }
}

/// A small hand-authored catalogue: the Huntress and the Advocate against a
/// werewolf and a revenant.
fn catalogue() -> Catalogue {
    let mut hunters = KeyedMap::new();
    hunters.insert("huntress".to_owned(), huntress());
    hunters.insert("advocate".to_owned(), advocate());
    let mut items = KeyedMap::new();
    items.insert("hunting-knife".to_owned(), item(ItemKind::MeleeWeapon { damage: 3 }));
    items.insert(
        "silver-bullet".to_owned(),
        item(ItemKind::WeaknessAmmunition { damage: 4, stops_regeneration: true }),
    );
    items.insert("wound-draught".to_owned(), item(ItemKind::Draught { heal: 4 }));
    items.insert("binding-charm".to_owned(), item(ItemKind::BindingCharm));
    let mut villains = KeyedMap::new();
    villains.insert("werewolf".to_owned(), werewolf());
    villains.insert("revenant".to_owned(), revenant());
    Catalogue {
        balance: balance(),
        hunter: huntress(),
        hunter_id: "huntress".to_owned(),
        hunters,
        enemies: KeyedMap::new(),
        villains,
        origins: KeyedMap::new(),
        schemes: KeyedMap::new(),
        items,
        recipes: KeyedMap::new(),
        clues: KeyedMap::new(),
        npcs: NpcCatalogue {
            archetypes: KeyedMap::new(),
            secrets: KeyedMap::new(),
            relationship_kinds: Vec::new(),
            deceased_name_pool: Vec::new(),
        },
        maps: KeyedMap::new(),
        gathers: KeyedMap::new(),
        grimoire: Vec::new(),
        ui: UiText {
            splash_title: id("ui.splash.title"),
            splash_intro: vec![id("ui.splash.intro.0")],
            key_bindings: vec![KeyBinding { keys: id("ui.keys.move"), action: id("ui.keys.move.action") }],
        },
        openings: Vec::new(),
        conditions: Vec::new(),
        machines: KeyedMap::new(),
        events: KeyedMap::new(),
        strings: StringTable::parse(
            "id,context,english\r\nui.keys.move,Splash,[Arrows]\r\nui.keys.move.action,Splash,[Move]\r\nui.splash.intro.0,Splash,[It begins.]\r\nui.splash.title,Splash,[Rogue Hunter]\r\n",
        )
        .expect("table parses"),
    }
}

fn plain(hp: u16) -> HuntLoadout {
    HuntLoadout {
        hunter_hp: hp,
        draughts: 0,
        silver_bullets: 0,
        binding_charms: 0,
        counter_blades: 0,
        physical: 0,
        on_consecrated_ground: false,
        dormant_opening: false,
    }
}

fn issues_of(cat: &Catalogue) -> Vec<String> {
    validate(cat)
}

fn mentions(issues: &[String], needle: &str) -> bool {
    issues.iter().any(|issue| issue.contains(needle))
}

fn church_clue(slot: Option<rogue_hunter::schema::ChurchSlot>) -> ClueTemplate {
    ClueTemplate {
        name: id("clues.candles.name"),
        category: ClueCategory::Location,
        supports: vec![],
        rules_out: vec![],
        villains: vec![],
        origins: vec![],
        schemes: vec![],
        action: OpportunityAction::Examine,
        pool: PoolKind::Lore,
        site: SiteKind::Church,
        church_slot: slot,
        obscurity: 1,
        grants_items: vec![],
        prompt: id("clues.candles.prompt"),
        reveal: id("clues.candles.reveal"),
    }
}

#[test]
fn unprepared_werewolf_hunt_is_not_viable() {
    let loadout = plain(12);
    let viability = hunt_viability(&catalogue(), "werewolf", 0, &loadout);
    assert!(viability < 500, "unprepared hunt scored {viability}");
}

#[test]
fn prepared_werewolf_hunt_clears_threshold() {
    let cat = catalogue();
    let loadout = HuntLoadout { draughts: 1, silver_bullets: 1, physical: 2, ..plain(12) };
    let viability = hunt_viability(&cat, "werewolf", 1, &loadout);
    let threshold = cat.balance.generator.viability_threshold_permille;
    assert!(viability >= threshold, "prepared early hunt scored {viability}");
}

#[test]
fn the_advocates_second_is_what_carries_her() {
    let cat = catalogue().with_hunter("advocate").expect("advocate");
    let with_point = HuntLoadout { draughts: 1, silver_bullets: 1, physical: 1, ..plain(cat.hunter.health) };
    let without_point = HuntLoadout { physical: 0, ..with_point };
    let with_second = hunt_viability(&cat, "werewolf", 0, &with_point);
    let without = hunt_viability(&cat, "werewolf", 0, &without_point);
    assert!(with_second > without, "the second added nothing: {with_second} vs {without}");
    let threshold = cat.balance.generator.viability_threshold_permille;
    assert!(with_second >= threshold, "the second should make the frail hunt viable, scored {with_second}");
}

#[test]
fn consecrated_revenant_hunt_clears_threshold() {
    let cat = catalogue();
    let loadout = HuntLoadout { draughts: 2, physical: 2, on_consecrated_ground: true, ..plain(12) };
    let viability = hunt_viability(&cat, "revenant", 2, &loadout);
    let threshold = cat.balance.generator.viability_threshold_permille;
    assert!(viability >= threshold, "consecrated final hunt scored {viability}");
}

#[test]
fn charm_revenant_early_hunt_clears_threshold() {
    let cat = catalogue();
    let loadout = HuntLoadout { draughts: 1, binding_charms: 1, physical: 2, dormant_opening: true, ..plain(12) };
    let viability = hunt_viability(&cat, "revenant", 1, &loadout);
    let threshold = cat.balance.generator.viability_threshold_permille;
    assert!(viability >= threshold, "charm early hunt scored {viability}");
}

#[test]
fn higher_tier_never_improves_viability() {
    let cat = catalogue();
    let loadout = HuntLoadout { draughts: 1, silver_bullets: 1, physical: 2, ..plain(12) };
    let tier0 = hunt_viability(&cat, "werewolf", 0, &loadout);
    let tier2 = hunt_viability(&cat, "werewolf", 2, &loadout);
    assert!(tier0 >= tier2, "tier 0 {tier0} vs tier 2 {tier2}");
}

#[test]
fn an_unknown_villain_scores_zero() {
    assert_eq!(hunt_viability(&catalogue(), "vampire", 0, &plain(12)), 0);
}

#[test]
fn viability_matches_the_worked_figures() {
    // Unprepared: survive 12000/2100 = 5 turns, kill 14000/1400 = 10 turns.
    assert_eq!(hunt_viability(&catalogue(), "werewolf", 0, &plain(12)), 125);
    // The advocate without her second point: survive 19000/2100 - 1 = 8,
    // kill 2 + 10000/1400 = 9.
    let cat = catalogue().with_hunter("advocate").expect("advocate");
    let loadout = HuntLoadout { draughts: 1, silver_bullets: 1, ..plain(9) };
    assert_eq!(hunt_viability(&cat, "werewolf", 0, &loadout), 425);
}

#[test]
fn from_kit_counts_the_named_items() {
    let cat = catalogue();
    let loadout = HuntLoadout::from_kit(
        &cat,
        |item: &str| match item {
            "wound-draught" => 2,
            "silver-bullet" => 1,
            "binding-charm" => 3,
            "cold-iron-pin" => 4,
            _ => 0,
        },
        1,
        true,
    );
    assert_eq!(loadout.hunter_hp, 12);
    assert_eq!(loadout.draughts, 2);
    assert_eq!(loadout.silver_bullets, 1);
    assert_eq!(loadout.binding_charms, 3);
    assert_eq!(loadout.counter_blades, 4);
    assert_eq!(loadout.physical, 1);
    assert!(loadout.on_consecrated_ground);
    assert!(!loadout.dormant_opening);
}

#[test]
fn selecting_a_hunter_swaps_the_profile() {
    let mut cat = catalogue();
    cat.select_hunter("advocate").expect("advocate is on the roster");
    assert_eq!(cat.hunter_id, "advocate");
    assert_eq!(cat.hunter.health, 9);
    match cat.select_hunter("nobody") {
        Err(ContentError::UnknownHunter(name)) => assert_eq!(name, "nobody"),
        other => panic!("expected an unknown hunter, got {other:?}"),
    }
    assert_eq!(cat.hunter_id, "advocate");
    assert_eq!(cat.hunter.health, 9);
}

#[test]
fn the_roster_is_in_id_order() {
    let cat = catalogue();
    let ids: Vec<&str> = cat.hunter_roster().into_iter().map(|(id, _)| id.as_str()).collect();
    assert_eq!(ids, vec!["advocate", "huntress"]);
    let (first, hunter) = default_hunter(&cat.hunters).expect("roster is not empty");
    assert_eq!(first, "advocate");
    assert_eq!(hunter.health, 9);
}

#[test]
fn an_empty_roster_is_a_missing_file() {
    let empty: KeyedMap<HunterDef> = KeyedMap::new();
    match default_hunter(&empty) {
        Err(ContentError::MissingFile(file)) => assert_eq!(file, "hunters/*.toml"),
        other => panic!("expected a missing file, got {other:?}"),
    }
}

#[test]
fn templates_for_lists_ids_of_that_role() {
    let mut cat = catalogue();
    let template = |role| MapTemplate {
        name: id("maps.name"),
        role,
        rows: vec![],
        legend: vec![],
        slots: vec![],
        exits: vec![],
        cover_pockets: vec![],
        initial_enemies: vec![],
        packs: vec![],
        description: id("maps.description"),
    };
    cat.maps.insert("wilderness".to_owned(), template(MapRole::Wilderness));
    cat.maps.insert("settlement-mill".to_owned(), template(MapRole::Settlement));
    cat.maps.insert("settlement".to_owned(), template(MapRole::Settlement));
    let settlements: Vec<&str> = cat.templates_for(MapRole::Settlement).into_iter().map(|s| s.as_str()).collect();
    assert_eq!(settlements, vec!["settlement", "settlement-mill"]);
    assert!(cat.templates_for(MapRole::OutlyingSite).is_empty());
}

#[test]
fn validation_names_what_the_test_catalogue_lacks() {
    let issues = issues_of(&catalogue());
    assert!(!issues.is_empty());
    // No maps at all: every required map is reported missing.
    assert!(mentions(&issues, "maps: required map 'settlement' is missing"));
    assert!(mentions(&issues, "npcs: need at least 4 archetypes"));
    // The balance and ui tables are sound, so nothing is said about them.
    assert!(!mentions(&issues, "balance:"));
    assert!(!mentions(&issues, "ui:"));
}

/// A 32 by 20 floor whose only wall is a ring two tiles out from column
/// 10, row 10, so that the tile and its neighbours are shut in.
fn ringed_map() -> MapTemplate {
    let rows: Vec<String> = (0..20)
        .map(|y: i32| {
            (0..32)
                .map(|x: i32| if (x - 10).abs().max((y - 10).abs()) == 2 { '#' } else { '.' })
                .collect()
        })
        .collect();
    let slot = |name: &str, at: [u8; 2]| SlotDef {
        id: name.to_owned(),
        kind: SiteKind::Church,
        at,
        label: id("maps.slot"),
    };
    MapTemplate {
        name: id("maps.name"),
        role: MapRole::Settlement,
        rows,
        legend: vec![('.', Terrain::Floor), ('#', Terrain::Wall)],
        slots: vec![slot("altar", [10, 10]), slot("lychgate", [20, 10])],
        exits: vec![ExitDef { to: "wilderness".to_owned(), at: [0, 0] }],
        cover_pockets: vec![],
        initial_enemies: vec![],
        packs: vec![],
        description: id("maps.description"),
    }
}

#[test]
fn a_walled_in_slot_is_reported() {
    let mut cat = catalogue();
    cat.maps.insert("settlement".to_owned(), ringed_map());
    let issues = issues_of(&cat);
    assert!(mentions(&issues, "maps: 'settlement' slot 'altar' cannot be walked to from the map's first exit"));
    assert!(!mentions(&issues, "slot 'lychgate' cannot be walked to"));
}

#[test]
fn a_gap_in_the_ring_lets_the_slot_be_reached() {
    let mut cat = catalogue();
    let mut map = ringed_map();
    // Open the ring at column 10, row 8.
    map.rows[8] = map.rows[8].chars().enumerate().map(|(x, c)| if x == 10 { '.' } else { c }).collect();
    cat.maps.insert("settlement".to_owned(), map);
    let issues = issues_of(&cat);
    assert!(!mentions(&issues, "cannot be walked to"));
}

#[test]
fn a_church_clue_without_its_slot_is_reported() {
    let mut cat = catalogue();
    cat.clues.insert("candles".to_owned(), church_clue(None));
    let issues = issues_of(&cat);
    assert!(mentions(&issues, "clues: 'candles' is a church clue without a church_slot"));
    let mut cat = catalogue();
    cat.clues.insert("candles".to_owned(), church_clue(Some(rogue_hunter::schema::ChurchSlot::Candles)));
    assert!(!mentions(&issues_of(&cat), "church_slot"));
}

#[test]
fn a_half_keyed_opening_is_reported() {
    let mut cat = catalogue();
    cat.openings.push(OpeningDef {
        id: "half-keyed".to_owned(),
        anchor: Some(OpeningAnchor::Npc),
        grant: None,
        body: vec![id("A line.")],
    });
    assert!(mentions(&issues_of(&cat), "'half-keyed' sets only one of anchor/grant"));
}

#[test]
fn a_condition_naming_an_informant_is_reported() {
    let mut cat = catalogue();
    cat.conditions.push(ConditionDef {
        id: "names-a-person".to_owned(),
        axis: ConditionAxis::Hour,
        effect: None,
        body: vec![id("{npc} was waiting.")],
    });
    assert!(mentions(&issues_of(&cat), "'names-a-person' uses {npc}"));
}

#[test]
fn an_unknown_placeholder_in_an_opening_is_reported() {
    let mut cat = catalogue();
    cat.openings.push(OpeningDef {
        id: "odd".to_owned(),
        anchor: None,
        grant: None,
        body: vec![id("Ask {npc} about {weather}.")],
    });
    let issues = issues_of(&cat);
    assert!(mentions(&issues, "'odd' uses unknown placeholder '{weather}'"));
    assert!(mentions(&issues, "'odd' uses {npc} but is not anchored on a person"));
}

#[test]
fn a_typo_in_a_string_id_is_reported() {
    let mut cat = catalogue();
    assert!(!mentions(&issues_of(&cat), "strings:"));
    cat.ui.splash_title = id("ui.splash.title.typo");
    assert!(mentions(&issues_of(&cat), "ui.splash_title references unknown string id 'ui.splash.title.typo'"));
}

#[test]
fn an_out_of_range_percent_is_reported() {
    let mut cat = catalogue();
    cat.balance.combat.melee_hit_percent = 101;
    assert!(mentions(&issues_of(&cat), "balance: combat.melee_hit_percent is 101, above 100 percent"));
}

#[test]
fn assembling_an_invalid_catalogue_lists_its_issues() {
    let cat = catalogue();
    let parts = CatalogueParts {
        balance: cat.balance.clone(),
        hunters: cat.hunters.clone(),
        enemies: cat.enemies.clone(),
        villains: cat.villains.clone(),
        origins: cat.origins.clone(),
        schemes: cat.schemes.clone(),
        items: cat.items.clone(),
        recipes: cat.recipes.clone(),
        clues: cat.clues.clone(),
        npcs: cat.npcs.clone(),
        maps: cat.maps.clone(),
        gathers: cat.gathers.clone(),
        grimoire: cat.grimoire.clone(),
        ui: cat.ui.clone(),
        openings: cat.openings.clone(),
        conditions: cat.conditions.clone(),
        machines: cat.machines.clone(),
        events: cat.events.clone(),
        strings: cat.strings.clone(),
    };
    let (hunter_id, hunter) = default_hunter(&parts.hunters).expect("hunters");
    match Catalogue::assemble(parts, hunter_id, hunter) {
        Err(ContentError::Invalid { issues }) => assert_eq!(issues, validate(&cat)),
        other => panic!("expected invalid content, got {:?}", other.map(|c| c.hunter_id)),
    }
}

#[test]
fn a_content_error_explains_itself() {
    let error = ContentError::Parse { file: "items.toml".to_owned(), message: "bad".to_owned() };
    assert_eq!(error.message(), "content file 'items.toml' failed to parse: bad");
    let error = ContentError::Invalid { issues: vec!["one".to_owned(), "two".to_owned()] };
    assert_eq!(error.message(), "content validation failed:\none\ntwo");
    assert_eq!(ContentError::MissingFile("x.toml".to_owned()).message(), "missing content file 'x.toml'");
}

fn world_map(role: MapRole, entry: Point, spawns: Vec<EnemySpawn>) -> WorldMap {
    WorldMap {
        template: "map".to_owned(),
        name: "Map".to_owned(),
        role,
        tiles: vec![Terrain::Floor; 32 * 20],
        exits: vec![],
        features: vec![],
        consecration_area: vec![],
        entry,
        initial_enemies: spawns,
    }
}

fn small_world() -> World {
    let spawn = |enemy: &str, x: i16, y: i16| EnemySpawn { enemy: enemy.to_owned(), at: Point::new(x, y) };
    World {
        seed: 5,
        villain: VillainSpec {
            archetype: "werewolf".to_owned(),
            origin: "cursed".to_owned(),
            scheme: "feast".to_owned(),
            title: "the thing".to_owned(),
            host: None,
            grave: None,
            lair: (MapId(0), Point::new(4, 4)),
        },
        maps: vec![
            world_map(MapRole::Wilderness, Point::new(0, 0), vec![spawn("wolf", 3, 3), spawn("wolf", 4, 3)]),
            world_map(MapRole::Settlement, Point::new(5, 6), vec![spawn("ghoul", 9, 9)]),
        ],
        npcs: vec![NpcSpec {
            id: NpcId(0),
            archetype: "smith".to_owned(),
            name: "Anna".to_owned(),
            glyph: 'a',
            disposition: Disposition::Friendly,
            mystical: false,
            trades: true,
            secret: NpcSecret { template: "debt".to_owned(), text: "owes".to_owned(), disproof: None },
            links: vec![],
            map: MapId(1),
            work: Point::new(7, 6),
        }],
        opportunities: vec![],
        ambush_percent: 0,
        certified_routes: vec![],
    }
}

#[test]
fn a_fresh_run_starts_at_the_settlement_entry() {
    let world = small_world();
    let state = RunState::new(&world, &catalogue(), RngState { state: 1, inc: 3 });
    assert_eq!(state.current_map, MapId(1));
    assert_eq!(state.hunter.pos, Point::new(5, 6));
    assert_eq!(state.hunter.hp, 12);
    assert_eq!(state.hunter.item_count("hunting-knife"), 1);
    assert_eq!(state.actors.len(), 3);
    assert_eq!(state.next_actor_id, 3);
    assert_eq!(state.actors[2].id.0, 2);
    assert_eq!(state.actors[2].map, MapId(1));
    assert_eq!(state.actors[2].kind, ActorKind::Enemy("ghoul".to_owned()));
    // No enemy of that kind is in the catalogue, so it stands with one point.
    assert_eq!(state.actors[2].hp, 1);
    assert_eq!(state.npcs.len(), 1);
    assert_eq!(state.npcs[0].pos, Point::new(7, 6));
    assert!(state.npcs[0].alive);
    assert_eq!(state.seen.len(), 2);
    assert!(state.seen.iter().all(|row| row.len() == 640 && row.iter().all(|s| !s)));
    assert_eq!(state.event_cursor, vec![0, 0]);
    assert_eq!(state.rng, RngState { state: 1, inc: 3 });
}

#[test]
fn occupants_and_terrain_are_read_from_the_run() {
    let mut world = small_world();
    world.maps[1].set_terrain(Point::new(6, 6), Terrain::Wall);
    let mut state = RunState::new(&world, &catalogue(), RngState { state: 0, inc: 1 });
    assert_eq!(state.terrain(&world, MapId(1), Point::new(6, 6)), Terrain::Wall);
    assert_eq!(state.terrain(&world, MapId(1), Point::new(-1, 6)), Terrain::Wall);
    state.terrain_overrides.push(TerrainOverride { map: MapId(1), at: Point::new(6, 6), terrain: Terrain::Rubble });
    assert_eq!(state.terrain(&world, MapId(1), Point::new(6, 6)), Terrain::Rubble);
    assert_eq!(state.actor_at(MapId(1), Point::new(9, 9)).map(|a| a.id.0), Some(2));
    assert!(state.actor_at(MapId(0), Point::new(9, 9)).is_none());
    assert_eq!(state.npc_at(&world, MapId(1), Point::new(7, 6)), Some(NpcId(0)));
    assert!(state.tile_occupied(&world, MapId(1), Point::new(5, 6)));
    assert!(!state.tile_occupied(&world, MapId(1), Point::new(1, 1)));
    state.actors[2].hp = 0;
    assert!(state.actor_at(MapId(1), Point::new(9, 9)).is_none());
    assert_eq!(RunState::seen_index(Point::new(3, 2)), 67);
}

#[test]
fn walls_block_sight_and_actors_block_lanes() {
    let mut world = small_world();
    world.maps[1].set_terrain(Point::new(10, 10), Terrain::Wall);
    let mut state = RunState::new(&world, &catalogue(), RngState { state: 0, inc: 1 });
    let from = Point::new(8, 10);
    let to = Point::new(12, 10);
    assert!(!has_line_of_sight(&state, &world, MapId(1), from, to));
    assert!(!has_line_of_sight(&state, &world, MapId(1), to, from));
    state.terrain_overrides.push(TerrainOverride { map: MapId(1), at: Point::new(10, 10), terrain: Terrain::Floor });
    assert!(has_line_of_sight(&state, &world, MapId(1), from, to));
    assert!(has_clear_lane(&state, &world, MapId(1), from, to));
    state.spawn_actor(ActorKind::Villain, MapId(1), Point::new(11, 10), 5);
    assert!(has_line_of_sight(&state, &world, MapId(1), from, to));
    assert!(!has_clear_lane(&state, &world, MapId(1), from, to));
}

#[test]
fn refreshing_sight_marks_what_is_seen() {
    let mut world = small_world();
    // A wall two tiles east of the entry hides what lies behind it.
    world.maps[1].set_terrain(Point::new(7, 6), Terrain::Wall);
    let mut state = RunState::new(&world, &catalogue(), RngState { state: 0, inc: 1 });
    refresh_visibility(&mut state, &world, 3);
    assert!(state.is_visible(Point::new(5, 6)));
    assert!(state.is_visible(Point::new(8, 8)));
    assert!(state.is_visible(Point::new(7, 6)));
    assert!(!state.is_visible(Point::new(8, 6)));
    assert!(!state.is_visible(Point::new(9, 6)));
    assert!(state.is_seen(MapId(1), Point::new(8, 8)));
    assert!(!state.is_seen(MapId(0), Point::new(8, 8)));
    state.hunter.pos = Point::new(20, 6);
    refresh_visibility(&mut state, &world, 3);
    assert!(!state.is_visible(Point::new(8, 8)));
    assert!(state.is_seen(MapId(1), Point::new(8, 8)));
}

#[test]
fn corroboration_counts_the_proofs_held() {
    let world = small_world();
    let cat = catalogue();
    let mut state = RunState::new(&world, &cat, RngState { state: 0, inc: 1 });
    let c = state.corroboration(&cat);
    assert_eq!(c.have, 0);
    assert_eq!(c.need, cat.balance.case.corroborating_proofs);
    assert!(!c.decisive);
    state.identity_clues.push(rogue_hunter::world::OpportunityId(4));
    state.discriminating_identity.push(rogue_hunter::world::OpportunityId(4));
    let c = state.corroboration(&cat);
    assert_eq!(c.have, 1);
    assert!(c.decisive);
}

fn small_sim() -> Sim {
    let world = small_world();
    let catalogue = catalogue();
    let mut state = RunState::new(&world, &catalogue, RngState { state: 0, inc: 1 });
    refresh_visibility(&mut state, &world, 3);
    Sim { catalogue, world, state }
}

#[test]
fn the_map_grid_layers_what_is_known() {
    let mut sim = small_sim();
    let cells = run_cells(&sim);
    assert_eq!(cells.len(), 640);
    let at = |x: usize, y: usize| cells[y * 32 + x];
    assert_eq!(at(5, 6), Cell { glyph: '@', color: CellColor::Hunter });
    assert_eq!(at(6, 6), Cell { glyph: '.', color: CellColor::Terrain });
    assert_eq!(at(7, 6), Cell { glyph: 'a', color: CellColor::Npc });
    assert_eq!(at(0, 0), Cell { glyph: ' ', color: CellColor::Unseen });
    // A lead found but not yet followed glows on its tile.
    sim.world.opportunities.push(rogue_hunter::world::OpportunitySpec {
        id: rogue_hunter::world::OpportunityId(0),
        source: "tracks".to_owned(),
        name: "Tracks".to_owned(),
        map: MapId(1),
        anchor: OpportunityAnchor::Tile(Point::new(6, 7)),
        pool: None,
        cost: 0,
        obscurity: 0,
        discovery: rogue_hunter::world::DiscoveryRule::Sight,
        grants: rogue_hunter::world::OpportunityGrant::Lead,
        prompt: "Follow the tracks".to_owned(),
        reveal: "They lead north.".to_owned(),
    });
    sim.state.discovered.push(rogue_hunter::world::OpportunityId(0));
    // Once the lair is known, it is marked on its map.
    sim.state.villain_location_known = true;
    sim.world.villain.lair = (MapId(1), Point::new(20, 15));
    let cells = run_cells(&sim);
    assert_eq!(cells[7 * 32 + 6], Cell { glyph: '?', color: CellColor::Opportunity });
    assert_eq!(cells[15 * 32 + 20], Cell { glyph: '!', color: CellColor::Villain });
    // Remembered ground out of sight is dimmed.
    sim.state.hunter.pos = Point::new(25, 6);
    refresh_visibility(&mut sim.state, &sim.world, 3);
    let cells = run_cells(&sim);
    assert_eq!(cells[6 * 32 + 6], Cell { glyph: '.', color: CellColor::TerrainDim });
    assert_eq!(cells[6 * 32 + 7].color, CellColor::TerrainDim);
}

#[test]
fn the_sim_answers_who_is_where() {
    let mut sim = small_sim();
    assert_eq!(sim.live_actor(ActorId(2)).map(|a| a.id.0), Ok(2));
    assert!(matches!(sim.live_actor(ActorId(0)), Err(Rejection::NoSuchTarget)));
    assert!(matches!(sim.live_actor(ActorId(9)), Err(Rejection::NoSuchTarget)));
    assert!(sim.require_npc_present(NpcId(0)).is_ok());
    assert!(matches!(sim.require_npc_adjacent(NpcId(0)), Err(Rejection::NotAdjacent)));
    sim.state.hunter.pos = Point::new(6, 6);
    assert!(sim.require_npc_adjacent(NpcId(0)).is_ok());
    sim.state.npcs[0].fled = true;
    assert!(matches!(sim.require_npc_adjacent(NpcId(0)), Err(Rejection::NpcUnavailable)));
    assert!(!sim.hostiles_aware_on_current_map());
    sim.state.actors[2].awake = true;
    assert!(sim.hostiles_aware_on_current_map());
    assert!(sim.exit_at(Point::new(0, 0)).is_none());
}

#[test]
fn the_sim_reads_the_pack_and_the_villain() {
    let mut sim = small_sim();
    assert_eq!(sim.best_melee(), (3, false));
    assert_eq!(sim.melee_damage(), 3);
    assert_eq!(sim.ranged_weapon(), None);
    sim.state.hunter.add_item("silver-bullet", 2);
    assert_eq!(sim.best_melee(), (3, false));
    assert_eq!(sim.item_name("nothing-known"), "nothing-known");
    assert_eq!(sim.actor_name(&ActorKind::Enemy("ghoul".to_owned())), "ghoul");
    assert_eq!(sim.villain_def().glyph, 'W');
    assert_eq!(sim.villain_ward_charges(), 0);
    assert!(sim.villain_is_vulnerable(ActorId(2)));
    assert!(!sim.villain_is_vulnerable(ActorId(40)));
    // The revenant is woundable only on the last beat of its cadence.
    sim.world.villain.archetype = "revenant".to_owned();
    let id = sim.state.spawn_actor(ActorKind::Villain, MapId(1), Point::new(12, 12), 16);
    assert!(!sim.villain_is_vulnerable(id));
    sim.state.actors[3].cadence = 2;
    assert!(sim.villain_is_vulnerable(id));
}

#[test]
fn the_farthest_free_tile_is_found_row_by_row() {
    let mut sim = small_sim();
    // From (5, 6) the far column is 26 away; the first such tile is at the top.
    assert_eq!(sim.farthest_free_tile(MapId(1)), Point::new(31, 0));
    sim.world.maps[1].set_terrain(Point::new(31, 0), Terrain::Wall);
    assert_eq!(sim.farthest_free_tile(MapId(1)), Point::new(31, 1));
}

#[test]
fn the_discovery_pass_meets_and_finds_what_is_in_sight() {
    let mut sim = small_sim();
    sim.world.opportunities.push(rogue_hunter::world::OpportunitySpec {
        id: rogue_hunter::world::OpportunityId(3),
        source: "tracks".to_owned(),
        name: "Tracks".to_owned(),
        map: MapId(1),
        anchor: OpportunityAnchor::Tile(Point::new(6, 7)),
        pool: None,
        cost: 0,
        obscurity: 0,
        discovery: rogue_hunter::world::DiscoveryRule::Sight,
        grants: rogue_hunter::world::OpportunityGrant::Lead,
        prompt: "Follow the tracks".to_owned(),
        reveal: "They lead north.".to_owned(),
    });
    let mut quiet = small_sim();
    quiet.world.opportunities = sim.world.opportunities.clone();
    quiet.discovery_pass(false);
    assert_eq!(quiet.state.met_npcs, vec![NpcId(0)]);
    assert_eq!(quiet.state.discovered, vec![rogue_hunter::world::OpportunityId(3)]);
    assert!(quiet.state.log.is_empty());

    sim.discovery_pass(true);
    assert_eq!(sim.state.met_npcs, vec![NpcId(0)]);
    assert_eq!(sim.state.discovered, vec![rogue_hunter::world::OpportunityId(3)]);
    assert_eq!(sim.state.log.len(), 2);
    assert_eq!(sim.state.log[0].kind, rogue_hunter::events::EventKind::Social);
    assert_eq!(sim.state.log[1].kind, rogue_hunter::events::EventKind::Clue);
    // Nothing new is in sight the second time round.
    sim.discovery_pass(true);
    assert_eq!(sim.state.log.len(), 2);
    assert_eq!(sim.state.met_npcs.len(), 1);
}

#[test]
fn the_sim_reads_the_hunters_profile_and_neighbours() {
    let mut sim = small_sim();
    assert_eq!(sim.manoeuvre_cost("power-attack"), 2);
    assert_eq!(sim.manoeuvre_cost("sprint"), 0);
    assert_eq!(sim.sprint_tiles(), 2);
    assert_eq!(sim.adjacent_hostile(), None);
    assert!(!sim.adjacent_villain());
    sim.state.spawn_actor(ActorKind::Enemy("wolf".to_owned()), MapId(1), Point::new(6, 7), 3);
    sim.state.spawn_actor(ActorKind::Villain, MapId(1), Point::new(4, 5), 9);
    assert_eq!(sim.adjacent_hostile(), Some(Target::Actor(ActorId(3))));
    assert!(sim.adjacent_villain());
    sim.state.actors[3].hp = 0;
    assert_eq!(sim.adjacent_hostile(), Some(Target::Actor(ActorId(4))));
}

#[test]
fn a_journey_is_confirmed_with_its_day_and_warning() {
    let mut sim = small_sim();
    sim.world.maps[1].exits.push(ExitSpec {
        at: Point::new(5, 6),
        to_map: MapId(0),
        to_point: Point::new(0, 0),
        ambush_route: false,
    });
    match travel_confirm(&sim, Command::Travel) {
        Modal::Confirm { detail, command, selected, .. } => {
            assert_eq!(detail, None);
            assert_eq!(command, Command::Travel);
            assert_eq!(selected, 0);
        }
        other => panic!("expected a confirmation, got {other:?}"),
    }
    // The day the scheme's minor event claims is flagged.
    sim.state.clock = 1;
    match travel_confirm(&sim, Command::Travel) {
        Modal::Confirm { detail, .. } => assert_eq!(detail, Some("[!missing]".to_owned())),
        other => panic!("expected a confirmation, got {other:?}"),
    }
    sim.state.clock = 4;
    match travel_confirm(&sim, Command::Travel) {
        Modal::Confirm { detail, .. } => assert_eq!(detail, None),
        other => panic!("expected a confirmation, got {other:?}"),
    }
}

#[test]
fn fire_targets_list_the_nearest_first() {
    let mut sim = small_sim();
    let wolf = || ActorKind::Enemy("wolf".to_owned());
    sim.state.spawn_actor(wolf(), MapId(1), Point::new(6, 7), 3);
    sim.state.spawn_actor(wolf(), MapId(1), Point::new(4, 4), 3);
    sim.state.spawn_actor(wolf(), MapId(1), Point::new(6, 5), 3);
    sim.state.spawn_actor(wolf(), MapId(1), Point::new(5, 5), 0);
    sim.state.spawn_actor(wolf(), MapId(0), Point::new(5, 7), 3);
    let targets = sim.fire_targets();
    assert_eq!(
        targets,
        vec![
            (Target::Actor(ActorId(5)), Point::new(6, 5)),
            (Target::Actor(ActorId(3)), Point::new(6, 7)),
            (Target::Actor(ActorId(4)), Point::new(4, 4)),
        ]
    );
}

#[test]
fn what_is_in_sight_lists_hostiles_first_and_nearest_first() {
    let mut sim = small_sim();
    sim.state.spawn_actor(ActorKind::Enemy("wolf".to_owned()), MapId(1), Point::new(6, 7), 3);
    sim.state.spawn_actor(ActorKind::Villain, MapId(1), Point::new(4, 5), 9);
    sim.state.actors[3].trapped = 2;
    let seen = sim.in_sight();
    let summary: Vec<(&str, &str, Point, i16, bool)> =
        seen.iter().map(|e| (e.name.as_str(), e.detail.as_str(), e.at, e.distance, e.hostile)).collect();
    assert_eq!(
        summary,
        vec![
            // The werewolf keeps no cadence, so it can always be wounded.
            ("[!missing]", "[!missing][!missing]", Point::new(4, 5), 1, true),
            ("wolf", "[!missing][!missing]", Point::new(6, 7), 1, true),
            ("Anna", "", Point::new(7, 6), 2, false),
        ]
    );
}

#[test]
fn the_action_panel_offers_what_can_be_done_and_says_why_not() {
    let sim = small_sim();
    let rows = rogue_hunter::client::available_actions(&sim, None, None);
    let keys: Vec<&str> = rows.iter().map(|r| r.key.as_str()).collect();
    assert_eq!(keys, vec!["e", ";", ".", "\u{21b5}", "Tab", "f", "a", "p", "s", "x", "K", "d", "g", "r", "v", "L"]);
    let enabled: Vec<bool> = rows.iter().map(|r| r.enabled).collect();
    assert_eq!(
        enabled,
        vec![true, true, true, false, true, false, true, true, true, true, false, true, true, true, true, true]
    );
    // Nothing pointed at, no walk to resume: the walking row says so.
    assert_eq!(rows[3].intent, rogue_hunter::input::Intent::Wait);
    assert!(rows[3].note.is_some());
    assert_eq!(rows[6].note, None);
    let rows = rogue_hunter::client::available_actions(&sim, Some(Point::new(8, 8)), None);
    assert_eq!(rows[3].intent, rogue_hunter::input::Intent::TravelTo(Point::new(8, 8)));
    assert!(rows[3].enabled);
    let rows = rogue_hunter::client::available_actions(&sim, Some(Point::new(5, 6)), Some(Point::new(2, 2)));
    assert_eq!(rows[3].intent, rogue_hunter::input::Intent::TravelTo(Point::new(2, 2)));
}

#[test]
fn inspecting_a_tile_says_what_is_there() {
    let mut sim = small_sim();
    assert_eq!(rogue_hunter::client::inspect(&sim, Point::new(40, 0)), None);
    assert_eq!(rogue_hunter::client::inspect(&sim, Point::new(0, 0)), Some("[!missing]".to_owned()));
    let at = Point::new(6, 6);
    sim.world.maps[1].features.push(rogue_hunter::world::FeatureSpec {
        id: rogue_hunter::world::FeatureId(1),
        at,
        kind: rogue_hunter::world::FeatureKind::Grave { contents: rogue_hunter::world::GraveContents::Mundane },
        name: "Old grave".to_owned(),
    });
    sim.world.maps[1].exits.push(ExitSpec { at, to_map: MapId(0), to_point: Point::new(0, 0), ambush_route: false });
    sim.world.opportunities.push(rogue_hunter::world::OpportunitySpec {
        id: rogue_hunter::world::OpportunityId(2),
        source: "tracks".to_owned(),
        name: "Tracks".to_owned(),
        map: MapId(1),
        anchor: OpportunityAnchor::Tile(at),
        pool: None,
        cost: 0,
        obscurity: 0,
        discovery: rogue_hunter::world::DiscoveryRule::Sight,
        grants: rogue_hunter::world::OpportunityGrant::Lead,
        prompt: "Follow".to_owned(),
        reveal: "North.".to_owned(),
    });
    sim.state.discovered.push(rogue_hunter::world::OpportunityId(2));
    sim.state.snares.push(rogue_hunter::state::Snare { map: MapId(1), at });
    assert_eq!(
        rogue_hunter::client::inspect(&sim, at),
        Some("Old grave \u{2014} Lead: Tracks \u{2014} Road to Map \u{2014} [!missing] \u{2014} [!missing]".to_owned())
    );
    sim.state.spawn_actor(ActorKind::Enemy("wolf".to_owned()), MapId(1), Point::new(4, 5), 3);
    assert_eq!(
        rogue_hunter::client::inspect(&sim, Point::new(4, 5)),
        Some("wolf (3/3 health) \u{2014} [!missing]".to_owned())
    );
}

fn with_strings(sim: &mut Sim, rows: &str) {
    sim.catalogue.strings = StringTable::parse(&format!("id,context,english\r\n{rows}")).expect("table parses");
}

fn frame_strings(sim: &mut Sim) {
    with_strings(
        sim,
        "ui.status.header,Status,{place} (seed {seed})\r\n\
         ui.clock.day,Clock,Day {day} of {total}\r\n\
         ui.clock.final-night,Clock,The last night\r\n\
         ui.status.health,Status,HP {current}/{max}\r\n\
         ui.status.pools,Status,L{lore}/{lore_cap} S{social}/{social_cap} M{mystic} P{physical}/{physical_cap}\r\n\
         ui.status.stamina,Status,ST {current}/{max}\r\n\
         ui.log.kind.combat,Log,[fight]\r\n\
         ui.direction.sprint,Overlay,Sprint which way?\r\n\
         ui.confirm.yes,Overlay,Yes\r\n\
         ui.confirm.no,Overlay,No\r\n\
         ui.status.nothing-here,Status,Nothing here.\r\n\
         ui.panel.actions,Panel,Actions\r\n\
         ui.action.travel,Action,Go to {place}\r\n\
         ui.action.craft,Action,Make {recipe}\r\n\
         ui.blocked.costs-coin,Blocked,Costs coin.\r\n\
         ui.region.settlement,Region,A village.\r\n\
         ui.region.wilderness,Region,The wild.\r\n\
         ui.npc.disposition,Npc,Seems {disposition}.\r\n\
         ui.npc.name-and-role,Npc,{name} the {role}\r\n\
         ui.relationships.empty.title,Npc,No one yet\r\n\
         ui.relationships.empty.body,Npc,Meet people.\r\n\
         ui.splash.title,Splash,[Rogue Hunter]\r\n\
         ui.seed-entry.title,Seed,Seed\r\n\
         ui.seed-entry.prompt,Seed,Type a seed\r\n",
    );
}

fn log_event(day: u8, text: &str) -> rogue_hunter::events::LogEvent {
    rogue_hunter::events::LogEvent {
        global_turn: day,
        local_turn: 0,
        kind: rogue_hunter::events::EventKind::Combat,
        text: text.to_owned(),
    }
}

#[test]
fn the_run_frame_fills_the_hunter_lines() {
    let mut sim = small_sim();
    frame_strings(&mut sim);
    sim.state.final_hunt = true;
    sim.state.clock = 9;
    let frame = rogue_hunter::frame::run_view(&sim, 42, &None, None, None, None, false);
    assert_eq!(frame.cells.len(), 640);
    assert_eq!(frame.header, "Map (seed 42)");
    assert_eq!(frame.clock_line, "Day 6 of 6  THE HUNT IS HERE");
    let h = &sim.state.hunter;
    assert_eq!(frame.health_line, format!("HP {}/{}", h.hp, h.max_hp));
    assert_eq!(frame.stamina_line, format!("ST {}/{}", h.stamina, sim.catalogue.hunter.stamina_cap));
    assert!(frame.overlay.is_none());
    assert!(frame.inspect.is_none());
    assert_eq!(frame.legend.len(), 10);
}

#[test]
fn the_mystic_favour_shows_over_the_cap() {
    let mut sim = small_sim();
    frame_strings(&mut sim);
    sim.state.hunter.mystic = 2;
    sim.state.hunter.mystic_bonus = 1;
    let frame = rogue_hunter::frame::run_view(&sim, 1, &None, None, None, None, false);
    assert!(frame.pools_line.contains(" M2+1 "), "{}", frame.pools_line);
}

#[test]
fn the_log_tail_keeps_the_last_eight_lines_tagged() {
    let mut sim = small_sim();
    frame_strings(&mut sim);
    sim.state.log.clear();
    for k in 0..10 {
        sim.state.log.push(log_event(0, &format!("line {k}")));
    }
    let frame = rogue_hunter::frame::run_view(&sim, 1, &None, None, None, None, false);
    assert_eq!(frame.log_tail.len(), 8);
    assert_eq!(frame.log_tail[0].1, "[fight] line 2");
    assert_eq!(frame.log_tail[7].1, "[fight] line 9");
}

#[test]
fn the_pack_lists_names_counts_and_uses() {
    let mut sim = small_sim();
    frame_strings(&mut sim);
    sim.state.hunter.inventory = KeyedMap::new();
    sim.state.hunter.inventory.insert("coin".to_owned(), 3);
    sim.state.hunter.inventory.insert("wound-draught".to_owned(), 1);
    let frame = rogue_hunter::frame::run_view(&sim, 1, &None, None, None, None, false);
    assert_eq!(frame.inventory.len(), 2);
    assert_eq!(frame.inventory[0].label, "coin x3");
    assert_eq!(frame.inventory[0].description, "");
    // An item the catalogue knows is named through the table; this one's
    // name is missing from it, so the sentinel shows.
    assert_eq!(frame.inventory[1].label, "[!missing]");
}

#[test]
fn the_overlay_follows_the_modal() {
    let mut sim = small_sim();
    frame_strings(&mut sim);
    let sprint = rogue_hunter::frame::overlay(&sim, &Modal::SprintDirection);
    assert_eq!(sprint.title, "Sprint which way?");
    assert!(sprint.items.is_empty());
    let confirm = rogue_hunter::frame::overlay(
        &sim,
        &Modal::Confirm { prompt: "Travel?".to_owned(), detail: Some("It is late.".to_owned()), command: Command::Travel, selected: 1 },
    );
    assert_eq!(confirm.title, "Travel? It is late.");
    assert_eq!(confirm.items, vec![("Yes".to_owned(), None), ("No".to_owned(), None)]);
    assert_eq!(confirm.selected, 1);
    let fire = rogue_hunter::frame::overlay(&sim, &Modal::FireTarget { silver: false, selected: 0 });
    assert_eq!(fire.items.len(), sim.fire_targets().len());
}

#[test]
fn nothing_to_do_says_so() {
    let mut sim = small_sim();
    frame_strings(&mut sim);
    sim.state.hunter.pos = Point::new(20, 15);
    match rogue_hunter::interact::open_interact_menu(&sim) {
        rogue_hunter::interact::InteractOutcome::Nothing { status } => assert_eq!(status, "Nothing here."),
        other => panic!("expected nothing, got {other:?}"),
    }
}

#[test]
fn a_lone_open_offer_is_taken_at_once() {
    let mut sim = small_sim();
    frame_strings(&mut sim);
    sim.state.hunter.pos = Point::new(20, 15);
    sim.world.maps[1].exits.push(ExitSpec {
        at: Point::new(20, 15),
        to_map: MapId(0),
        to_point: Point::new(1, 1),
        ambush_route: false,
    });
    let items = rogue_hunter::interact::interact_items(&sim);
    assert_eq!(items.len(), 1);
    assert_eq!(items[0].label, "Go to Map");
    match rogue_hunter::interact::open_interact_menu(&sim) {
        rogue_hunter::interact::InteractOutcome::Take(command) => assert_eq!(command, Command::Travel),
        other => panic!("expected travel, got {other:?}"),
    }
}

#[test]
fn beside_a_trader_the_menu_offers_talk_and_shot() {
    let mut sim = small_sim();
    frame_strings(&mut sim);
    sim.state.hunter.pos = Point::new(6, 6);
    match rogue_hunter::interact::open_interact_menu(&sim) {
        rogue_hunter::interact::InteractOutcome::Choose(Modal::Menu { title, items, selected }) => {
            assert_eq!(title, "Actions");
            assert_eq!(selected, 0);
            assert_eq!(items.len(), 2);
            assert_eq!(items[0].label, "Talk with Anna");
            assert_eq!(items[0].blocked, None);
            assert_eq!(items[1].label, "Buy powder and ball from Anna [2 coin]");
            assert_eq!(items[1].blocked.as_deref(), Some("Costs coin."));
        }
        other => panic!("expected a menu, got {other:?}"),
    }
}

#[test]
fn a_recipe_names_what_it_still_lacks_in_id_order() {
    let mut sim = small_sim();
    frame_strings(&mut sim);
    sim.state.hunter.pos = Point::new(20, 15);
    sim.world.maps[1].features.push(rogue_hunter::world::FeatureSpec {
        id: rogue_hunter::world::FeatureId(0),
        at: Point::new(21, 15),
        kind: rogue_hunter::world::FeatureKind::Workstation,
        name: "Bench".to_owned(),
    });
    sim.catalogue.recipes.insert(
        "poultice".to_owned(),
        rogue_hunter::schema::RecipeDef {
            name: id("ui.recipe.poultice"),
            inputs: vec!["herb".to_owned(), "herb".to_owned(), "ash".to_owned()],
            output: "poultice".to_owned(),
            requires_origin_reagent: false,
            description: id("ui.recipe.poultice.about"),
        },
    );
    sim.state.hunter.inventory = KeyedMap::new();
    sim.state.hunter.inventory.insert("herb".to_owned(), 1);
    let items = rogue_hunter::interact::interact_items(&sim);
    assert_eq!(items.len(), 1);
    assert_eq!(items[0].label, "Make [!missing]");
    assert_eq!(items[0].blocked.as_deref(), Some("Missing: ash, herb."));
    sim.state.hunter.inventory.insert("herb".to_owned(), 2);
    sim.state.hunter.inventory.insert("ash".to_owned(), 1);
    let items = rogue_hunter::interact::interact_items(&sim);
    assert_eq!(items[0].blocked, None);
    assert_eq!(items[0].action, rogue_hunter::client::MenuAction::Do(Command::Craft { recipe: "poultice".to_owned() }));
}

#[test]
fn a_social_lead_costs_more_in_a_hostile_village() {
    let mut sim = small_sim();
    frame_strings(&mut sim);
    sim.state.hunter.pos = Point::new(20, 15);
    sim.world.opportunities.push(rogue_hunter::world::OpportunitySpec {
        id: rogue_hunter::world::OpportunityId(0),
        source: "gossip".to_owned(),
        name: "Gossip".to_owned(),
        map: MapId(1),
        anchor: OpportunityAnchor::Tile(Point::new(20, 16)),
        pool: Some(PoolKind::Social),
        cost: 1,
        obscurity: 0,
        discovery: rogue_hunter::world::DiscoveryRule::Sight,
        grants: rogue_hunter::world::OpportunityGrant::Lead,
        prompt: "Listen".to_owned(),
        reveal: "Nothing.".to_owned(),
    });
    sim.state.discovered.push(rogue_hunter::world::OpportunityId(0));
    sim.state.settlement_hostile = true;
    sim.state.hunter.social = 1;
    let items = rogue_hunter::interact::interact_items(&sim);
    assert_eq!(items.len(), 1);
    assert_eq!(items[0].label, "Gossip [1 Social]");
    assert_eq!(items[0].blocked.as_deref(), Some("Needs 2 Social point(s); travel restores your pools."));
}

#[test]
fn the_record_groups_events_by_day() {
    let mut sim = small_sim();
    frame_strings(&mut sim);
    sim.state.log = vec![log_event(0, "a"), log_event(0, "b"), log_event(1, "c"), log_event(6, "d")];
    let entries = rogue_hunter::records::record_entries(&sim);
    assert_eq!(
        entries,
        vec![
            ("Day 0 of 6".to_owned(), "a\nb".to_owned()),
            ("Day 1 of 6".to_owned(), "c".to_owned()),
            ("The last night".to_owned(), "d".to_owned()),
        ]
    );
}

#[test]
fn the_region_marks_where_the_hunter_is() {
    let mut sim = small_sim();
    frame_strings(&mut sim);
    sim.world.maps[1].exits.push(ExitSpec { at: Point::new(0, 5), to_map: MapId(0), to_point: Point::new(1, 1), ambush_route: false });
    let entries = rogue_hunter::records::region_entries(&sim);
    assert_eq!(entries.len(), 2);
    assert_eq!(entries[0], ("Map".to_owned(), "The wild.\nRoads: ".to_owned()));
    assert_eq!(entries[1], ("Map  <- you are here".to_owned(), "A village.\nRoads: Map".to_owned()));
}

#[test]
fn the_relationships_screen_lists_who_was_met() {
    let mut sim = small_sim();
    frame_strings(&mut sim);
    sim.state.met_npcs.clear();
    let entries = rogue_hunter::records::relationship_entries(&sim);
    assert_eq!(entries, vec![("No one yet".to_owned(), "Meet people.".to_owned())]);
    sim.state.met_npcs.push(NpcId(0));
    sim.state.known_secrets.push(NpcId(0));
    let entries = rogue_hunter::records::relationship_entries(&sim);
    assert_eq!(entries, vec![("Anna the ".to_owned(), "Seems Friendly.\nSecret: owes".to_owned())]);
}

#[test]
fn the_viewmodel_builds_the_screen_that_is_up() {
    let mut sim = small_sim();
    frame_strings(&mut sim);
    let cat = sim.catalogue.clone();
    let splash = rogue_hunter::screens::view_model(
        &cat,
        &rogue_hunter::client::Screen::Splash { selected: 2 },
        rogue_hunter::input::ControlScheme::Numpad,
        &"ready".to_owned(),
        None,
    );
    assert_eq!(splash.status, "ready");
    match splash.screen {
        rogue_hunter::view::ScreenView::Splash { title, options, selected, .. } => {
            assert_eq!(title, "[Rogue Hunter]");
            assert_eq!(options.len(), 4);
            assert_eq!(selected, 2);
        }
        other => panic!("expected the splash, got {other:?}"),
    }
    let seed = rogue_hunter::screens::view_model(
        &cat,
        &rogue_hunter::client::Screen::SeedEntry { input: "12".to_owned(), error: None },
        rogue_hunter::input::ControlScheme::Numpad,
        &String::new(),
        None,
    );
    match seed.screen {
        rogue_hunter::view::ScreenView::TextEntry { title, prompt, input, error } => {
            assert_eq!((title.as_str(), prompt.as_str(), input.as_str()), ("Seed", "Type a seed", "12"));
            assert!(error.is_none());
        }
        other => panic!("expected text entry, got {other:?}"),
    }
    let frame = rogue_hunter::screens::RunFrame {
        sim: &sim,
        seed: 42,
        modal: None,
        hint: None,
        look: None,
        resume: None,
        looking: false,
        framings: vec![],
        outcome: None,
        share_code: String::new(),
    };
    let log = rogue_hunter::screens::view_model(
        &cat,
        &rogue_hunter::client::Screen::EventLog { selected: 9 },
        rogue_hunter::input::ControlScheme::Numpad,
        &String::new(),
        Some(frame),
    );
    match log.screen {
        rogue_hunter::view::ScreenView::List { selected, entries, .. } => {
            assert_eq!(selected, Some(entries.len().saturating_sub(1)));
        }
        other => panic!("expected a list, got {other:?}"),
    }
}

/// The issues `Catalogue::assemble` refuses `cat`'s tables with, if any.
fn assembled_issues(cat: &Catalogue) -> Option<Vec<String>> {
    let parts = CatalogueParts {
        balance: cat.balance.clone(),
        hunters: cat.hunters.clone(),
        enemies: cat.enemies.clone(),
        villains: cat.villains.clone(),
        origins: cat.origins.clone(),
        schemes: cat.schemes.clone(),
        items: cat.items.clone(),
        recipes: cat.recipes.clone(),
        clues: cat.clues.clone(),
        npcs: cat.npcs.clone(),
        maps: cat.maps.clone(),
        gathers: cat.gathers.clone(),
        grimoire: cat.grimoire.clone(),
        ui: cat.ui.clone(),
        openings: cat.openings.clone(),
        conditions: cat.conditions.clone(),
        machines: cat.machines.clone(),
        events: cat.events.clone(),
        strings: cat.strings.clone(),
    };
    let (hunter_id, hunter) = default_hunter(&parts.hunters).expect("hunters");
    match Catalogue::assemble(parts, hunter_id, hunter) {
        Ok(_) => None,
        Err(ContentError::Invalid { issues }) => Some(issues),
        Err(other) => panic!("unexpected error: {}", other.message()),
    }
}

#[test]
fn a_half_keyed_opening_is_rejected() {
    let mut cat = catalogue();
    cat.openings.push(OpeningDef {
        id: "half-keyed".to_owned(),
        anchor: Some(OpeningAnchor::Npc),
        grant: None,
        body: vec![id("A line.")],
    });
    let issues = assembled_issues(&cat).expect("a half-keyed opening must not validate");
    assert!(mentions(&issues, "'half-keyed' sets only one of anchor/grant"));
}

#[test]
fn an_unresolvable_string_id_is_refused() {
    let mut cat = catalogue();
    cat.ui.splash_title = id("ui.splash.title.typo");
    let issues = assembled_issues(&cat).expect("content pointing at a missing string id must not validate");
    assert!(issues.contains(&"strings: ui.splash_title references unknown string id 'ui.splash.title.typo'".to_owned()));
}

#[test]
fn a_church_clue_must_declare_its_slot() {
    let mut cat = catalogue();
    cat.clues.insert("candles".to_owned(), church_clue(None));
    let issues = assembled_issues(&cat).expect("a church clue without a slot must not validate");
    assert!(issues.contains(&"clues: 'candles' is a church clue without a church_slot".to_owned()));
}

#[test]
fn a_condition_may_not_name_a_clue_or_an_informant() {
    let mut cat = catalogue();
    cat.conditions.push(ConditionDef {
        id: "names-a-person".to_owned(),
        axis: ConditionAxis::Hour,
        effect: None,
        body: vec![id("{npc} was waiting.")],
    });
    let issues = assembled_issues(&cat).expect("a condition naming an informant must not validate");
    assert!(mentions(&issues, "'names-a-person' uses {npc}"));
}

#[test]
fn a_typo_in_any_content_string_id_is_refused() {
    let mut cat = catalogue();
    let mut clue = church_clue(Some(rogue_hunter::schema::ChurchSlot::Candles));
    clue.reveal = id("clues.second-face.rveeal");
    cat.clues.insert("second-face".to_owned(), clue);
    let issues = assembled_issues(&cat).expect("a mistyped clue string id must not validate");
    assert!(mentions(&issues, "references unknown string id 'clues.second-face.rveeal'"));
}

#[test]
fn a_slot_walled_off_from_the_map_is_rejected() {
    let mut cat = catalogue();
    cat.maps.insert("settlement".to_owned(), ringed_map());
    let issues = assembled_issues(&cat).expect("a sealed-off slot must not validate");
    let message = format!("{issues:?}");
    assert!(message.contains("cannot be walked to"), "expected a reachability complaint, got: {message}");
}

#[test]
fn the_fingerprint_does_not_depend_on_line_endings() {
    fn fingerprint_of(sources: &[(String, String)]) -> u16 {
        let mut hash: u64 = 0xcbf29ce484222325;
        for (name, source) in sources {
            for byte in name.bytes().chain(source.bytes()).filter(|b| *b != b'\r') {
                hash ^= u64::from(byte);
                hash = hash.wrapping_mul(0x100000001b3);
            }
        }
        (hash ^ (hash >> 16) ^ (hash >> 32) ^ (hash >> 48)) as u16
    }
    let as_lf: Vec<(String, String)> = vec![
        ("balance.toml".to_owned(), "[clock]\ntravel_turns = 6\n".to_owned()),
        ("items.toml".to_owned(), "[items.knife]\nname = \"items.knife\"\n".to_owned()),
    ];
    let as_crlf: Vec<(String, String)> =
        as_lf.iter().map(|(name, source)| (name.clone(), source.replace('\n', "\r\n"))).collect();
    let borrow = |v: &Vec<(String, String)>| -> Vec<(String, String)> { v.clone() };
    let lf = borrow(&as_lf);
    let crlf = borrow(&as_crlf);
    let lf_refs: Vec<(&str, &str)> = lf.iter().map(|(n, s)| (n.as_str(), s.as_str())).collect();
    let crlf_refs: Vec<(&str, &str)> = crlf.iter().map(|(n, s)| (n.as_str(), s.as_str())).collect();
    assert_eq!(fingerprint_of(&as_lf), fingerprint_of(&as_crlf));
    assert_eq!(
        rogue_hunter::fingerprint::content_fingerprint(&lf_refs),
        rogue_hunter::fingerprint::content_fingerprint(&crlf_refs),
    );
    assert_eq!(rogue_hunter::fingerprint::content_fingerprint(&lf_refs), fingerprint_of(&as_lf));
}

#[test]
fn the_string_table_is_outside_the_content_fingerprint() {
    let sources = [("ui.toml", "splash_title = \"ui.splash.title\"\n")];
    let before = rogue_hunter::fingerprint::content_fingerprint(&sources);
    let original = "id,context,english\r\nui.splash.title,Splash,[ROGUE HUNTER]\r\n";
    let mutated = original.replace("ROGUE HUNTER", "A QUITE DIFFERENT NAME");
    assert_ne!(mutated, original);
    let table = StringTable::parse(&mutated).expect("a table with rewritten copy still parses");
    assert_eq!(table.try_get("ui.splash.title").expect("the title resolves"), "[A QUITE DIFFERENT NAME]");
    assert_eq!(before, rogue_hunter::fingerprint::content_fingerprint(&sources));
}

#[test]
fn every_string_row_carries_a_context_note() {
    let cat = catalogue();
    for (id, row) in cat.strings.rows() {
        assert!(!row.context.trim().is_empty(), "'{id}' has no context note");
    }
    let mut cat = catalogue();
    cat.strings = StringTable::parse("id,context,english\r\nui.splash.title,  ,[Rogue Hunter]\r\n").expect("parses");
    assert!(issues_of(&cat).contains(&"strings: 'ui.splash.title' has no context note".to_owned()));
}

#[test]
fn string_ids_are_unique_and_sorted() {
    let table = StringTable::parse("id,context,english\r\nui.b,X,[B]\r\nui.a,X,[A]\r\nui.c,X,[C]\r\n").expect("parses");
    let ids: Vec<&str> = table.ids();
    let mut sorted = ids.clone();
    sorted.sort_unstable();
    assert_eq!(ids, sorted, "ids come back sorted");
    let mut deduped = sorted.clone();
    deduped.dedup();
    assert_eq!(deduped.len(), ids.len(), "string ids must be unique");
    assert!(StringTable::parse("id,context,english\r\nui.a,X,[A]\r\nui.a,X,[B]\r\n").is_err());
}

fn with_case(sim: &mut Sim) {
    sim.catalogue.origins.insert(
        "cursed".to_owned(),
        rogue_hunter::schema::OriginDef {
            name: id("origins.cursed"),
            sign_sites: vec![],
            counter_reagent: "grave-dirt".to_owned(),
            counter_flavour: id("origins.cursed.flavour"),
            description: id("origins.cursed.about"),
        },
    );
    let event = || rogue_hunter::schema::SchemeEvent {
        name: id("schemes.feast.event"),
        text: id("schemes.feast.text"),
        site_map: "settlement".to_owned(),
        spawn_minions: 0,
    };
    sim.catalogue.schemes.insert(
        "feast".to_owned(),
        rogue_hunter::schema::SchemeDef {
            name: id("schemes.feast"),
            minion_enemy: "ghoul".to_owned(),
            minor_event: event(),
            major_event: event(),
            preempt: rogue_hunter::schema::SchemePreempt {
                name: id("schemes.feast.preempt"),
                site: SiteKind::Church,
                map_role: MapRole::Settlement,
                pool: PoolKind::Social,
                cost: 1,
                prompt: id("schemes.feast.prompt"),
                reveal: id("schemes.feast.reveal"),
                blunted_text: id("schemes.feast.blunted"),
            },
            description: id("schemes.feast.about"),
        },
    );
}

#[test]
fn the_dossier_says_where_the_hunt_stands() {
    let mut sim = small_sim();
    with_case(&mut sim);
    with_strings(
        &mut sim,
        "ui.dossier.clock,Dossier,Day {day} of {total}; tier {tier}\r\n\
         ui.dossier.quarry.proofs,Dossier,{count} proofs\r\n\
         ui.dossier.quarry.cannot-name,Dossier,Cannot name it yet\r\n\
         ui.dossier.leads.entry,Dossier,{name} at {place}\r\n\
         ui.dossier.leads.cost,Dossier, ({cost} {pool})\r\n\
         ui.dossier.leads.unaffordable,Dossier, - cannot pay\r\n\
         ui.pool.lore,Pool,Lore\r\n\
         ui.dossier.prep.reagent-unknown,Dossier,Reagent unknown\r\n\
         ui.dossier.prep.nothing,Dossier,No counters\r\n\
         ui.dossier.prep.unconsecrated,Dossier,Church unwarded\r\n\
         ui.dossier.pack.empty,Dossier,Empty pack\r\n",
    );
    sim.world.opportunities.push(rogue_hunter::world::OpportunitySpec {
        id: rogue_hunter::world::OpportunityId(0),
        source: "tracks".to_owned(),
        name: "Tracks".to_owned(),
        map: MapId(1),
        anchor: OpportunityAnchor::Tile(Point::new(6, 7)),
        pool: Some(PoolKind::Lore),
        cost: 9,
        obscurity: 0,
        discovery: rogue_hunter::world::DiscoveryRule::Sight,
        grants: rogue_hunter::world::OpportunityGrant::Lead,
        prompt: "Follow".to_owned(),
        reveal: "North.".to_owned(),
    });
    sim.state.discovered.push(rogue_hunter::world::OpportunityId(0));
    sim.state.hunter.inventory = KeyedMap::new();
    let entries = rogue_hunter::dossier::dossier_entries(&sim, &vec!["Follow the tracks".to_owned()]);
    assert_eq!(entries.len(), 4);
    let tier = sim.state.villain.tier;
    assert_eq!(
        entries[0].1,
        format!("Day 0 of 6; tier {tier}\n0 proofs\n[!missing]\n[!missing]\n[!missing]\n[!missing]\nCannot name it yet")
    );
    assert_eq!(entries[1].1, "Follow the tracks at Map (9 Lore) - cannot pay");
    assert_eq!(entries[2].1, "Reagent unknown\nNo counters\nChurch unwarded");
    assert_eq!(entries[3].1, "Empty pack");
}

#[test]
fn the_case_report_marks_the_routes_against_what_was_done() {
    let mut sim = small_sim();
    with_case(&mut sim);
    with_strings(
        &mut sim,
        "ui.outcome.victory,Report,Victory\r\n\
         ui.report.step-taken,Report,[x]\r\n\
         ui.report.step-missed,Report,[ ]\r\n\
         ui.report.step-neutral,Report,[-]\r\n\
         ui.report.route-step,Report,{mark} day {turn}: {what}\r\n\
         ui.report.tier,Report,Tier {tier}\r\n",
    );
    sim.world.certified_routes.push(rogue_hunter::world::CertifiedRoute {
        label: "Silver".to_owned(),
        ready_by_turn: 3,
        viability_permille: 700,
        total_effort: 0,
        total_obscurity: 0,
        travel_legs: 0,
        uses_mystic_favour: false,
        steps: vec![
            rogue_hunter::world::RouteStep {
                turn: 1,
                description: "read the signs".to_owned(),
                opportunity: Some(rogue_hunter::world::OpportunityId(0)),
            },
            rogue_hunter::world::RouteStep { turn: 2, description: "travel".to_owned(), opportunity: None },
        ],
    });
    sim.world.opportunities.push(rogue_hunter::world::OpportunitySpec {
        id: rogue_hunter::world::OpportunityId(0),
        source: "signs".to_owned(),
        name: "Signs".to_owned(),
        map: MapId(1),
        anchor: OpportunityAnchor::Tile(Point::new(6, 7)),
        pool: None,
        cost: 0,
        obscurity: 0,
        discovery: rogue_hunter::world::DiscoveryRule::Sight,
        grants: rogue_hunter::world::OpportunityGrant::IdentityClue,
        prompt: "Read".to_owned(),
        reveal: "A wolf.".to_owned(),
    });
    let report = rogue_hunter::report::case_report(
        &sim,
        Some(rogue_hunter::state::Outcome::Victory),
        "CODE-1".to_owned(),
    );
    assert_eq!(report.outcome, "Victory");
    assert_eq!(report.hidden_clues, vec!["Signs \u{2014} A wolf.".to_owned()]);
    assert_eq!(report.routes, vec!["Silver (ready by day 3, 700\u{2030} viable)\n[ ] day 1: read the signs\n[-] day 2: travel".to_owned()]);
    assert_eq!(report.tier, format!("Tier {}", sim.state.villain.tier));
    assert_eq!(report.preparations.len(), 4);
    assert_eq!(report.share_code, "CODE-1");
    sim.state.resolved.push(rogue_hunter::world::OpportunityId(0));
    let report = rogue_hunter::report::case_report(&sim, None, String::new());
    assert!(report.hidden_clues.is_empty());
    assert!(report.routes[0].contains("[x] day 1"));
}

#[test]
fn content_files_are_routed_by_directory() {

    assert_eq!(toml_stem("maps/settlement.toml", "maps"), Some("settlement".to_owned()));
    assert_eq!(toml_stem("hunters/advocate.toml", "hunters"), Some("advocate".to_owned()));
    assert_eq!(toml_stem("maps/settlement.toml", "hunters"), None);
    assert_eq!(toml_stem("maps/settlement.csv", "maps"), None);
    assert_eq!(toml_stem("maps.toml", "maps"), None);
    assert_eq!(toml_stem("maps/.toml", "maps"), Some(String::new()));
}

#[test]
fn a_missing_content_file_is_named() {

    let sources = [("items.toml", "a"), ("ui.toml", "b"), ("items.toml", "c")];
    assert_eq!(source_text(&sources, "ui.toml").ok(), Some("b"));
    assert_eq!(source_text(&sources, "items.toml").ok(), Some("c"));
    match source_text(&sources, "clues.toml") {
        Err(ContentError::MissingFile(file)) => assert_eq!(file, "clues.toml"),
        other => panic!("expected a missing file, got {:?}", other.map(|t| t.to_owned())),
    }
}

fn strike_strings(sim: &mut Sim) {
    with_strings(
        sim,
        "log.combat.strike,Log,{target} takes {damage}\r\n\
         log.combat.slain,Log,{target} is slain\r\n\
         log.loot.dropped,Log,Found {item}\r\n\
         log.loot.coin,Log,A coin\r\n\
         log.combat.silver-bites,Log,Silver bites\r\n\
         log.combat.villain-destroyed,Log,{villain} is destroyed\r\n\
         villains.werewolf,Villain,Werewolf\r\n\
         w.guard,Villain,It turns aside\r\n",
    );
}

#[test]
fn a_killing_blow_logs_the_death_and_the_drop() {
    let mut sim = small_sim();
    strike_strings(&mut sim);
    sim.state.hunter.inventory = KeyedMap::new();
    let before = sim.state.log.len();
    sim.deal_damage_to_actor(ActorId(2), 5, false, Some(1));
    let texts: Vec<&str> = sim.state.log[before..].iter().map(|e| e.text.as_str()).collect();
    assert_eq!(texts, vec!["ghoul takes 5", "ghoul is slain", "Found coin"]);
    let wolf = sim.state.actors.iter().find(|a| a.id == ActorId(2)).expect("still listed");
    assert_eq!(wolf.hp, 0);
    assert!(wolf.awake);
    assert_eq!(sim.state.hunter.item_count("coin"), 1);
}

#[test]
fn a_blow_on_no_one_changes_nothing() {
    let mut sim = small_sim();
    strike_strings(&mut sim);
    let before = sim.state.log.len();
    sim.deal_damage_to_actor(ActorId(77), 5, false, None);
    assert_eq!(sim.state.log.len(), before);
}

#[test]
fn silver_stops_the_werewolf_regenerating_and_its_death_wins_the_run() {
    let mut sim = small_sim();
    strike_strings(&mut sim);
    let map = sim.state.current_map;
    let id = sim.state.spawn_actor(ActorKind::Villain, map, Point::new(12, 12), 6);
    let before = sim.state.log.len();
    sim.deal_damage_to_actor(id, 2, true, None);
    let texts: Vec<&str> = sim.state.log[before..].iter().map(|e| e.text.as_str()).collect();
    assert_eq!(texts, vec!["Silver bites", "Werewolf takes 2"]);
    let villain = sim.state.actors.iter().find(|a| a.id == id).expect("listed");
    assert!(villain.regen_stopped);
    assert_eq!(villain.hp, 4);
    sim.deal_damage_to_actor(id, 9, false, None);
    assert_eq!(sim.state.outcome, Some(rogue_hunter::state::Outcome::Victory));
    assert!(sim.state.villain.dead);
    assert_eq!(sim.state.log.last().map(|e| e.text.as_str()), Some("Werewolf is destroyed"));
}

#[test]
fn a_guarded_villain_turns_an_untimely_blow_aside() {
    let mut sim = small_sim();
    strike_strings(&mut sim);
    let mut def = werewolf();
    def.cadence = Some(CadenceDef {
        period: 4,
        dash_tiles: 2,
        bound_vulnerable_turns: 2,
        consecrated_damage_per_turn: 1,
        vulnerable_telegraph: id("w.open"),
        dash_telegraph: id("w.dash"),
        guarded_telegraph: id("w.guard"),
    });
    sim.catalogue.villains.insert("werewolf".to_owned(), def);
    let map = sim.state.current_map;
    let id = sim.state.spawn_actor(ActorKind::Villain, map, Point::new(12, 12), 6);
    let before = sim.state.log.len();
    sim.deal_damage_to_actor(id, 3, false, None);
    assert_eq!(sim.state.log.len(), before + 1);
    assert_eq!(sim.state.log.last().map(|e| e.text.as_str()), Some("It turns aside"));
    assert_eq!(sim.state.actors.iter().find(|a| a.id == id).map(|a| a.hp), Some(6));
}
