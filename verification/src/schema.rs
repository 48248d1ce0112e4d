//! The authored content schema.
//!
//! All gameplay numbers live here rather than as code constants. Content is
//! addressed by string ids; prose is held as `StringId`s resolved through the
//! string table at the point of display.
use vstd::prelude::*;

use crate::keyed::KeyedMap;
use crate::strings::StringId;
use crate::text::{list_contains, text_eq, texts};

verus! {

/// A grid coordinate inside a 32x20 tactical map, `[x, y]` with `0,0` top-left.
pub type Coord = [u8; 2];

// ---------------------------------------------------------------------------
// balance
// ---------------------------------------------------------------------------
#[derive(Debug, Clone)]
pub struct Balance {
    pub combat: CombatBalance,
    pub clock: ClockBalance,
    pub loot: LootBalance,
    pub generator: GeneratorBalance,
    pub vision: VisionBalance,
    pub case: CaseBalance,
}

#[derive(Debug, Clone)]
pub struct CombatBalance {
    /// Base chance to hit with a melee attack, in whole percent.
    pub melee_hit_percent: u8,
    /// Base chance to hit with a ranged attack, in whole percent.
    pub ranged_hit_percent: u8,
    /// Percentage points subtracted from a trapped enemy's attacks.
    pub trapped_attack_penalty_percent: u8,
    /// Percentage-point bonus for an attack made immediately after a pounce.
    pub pounce_attack_bonus_percent: u8,
    /// Encounter turns an enemy stays held in a snare.
    pub snare_hold_turns: u8,
    /// Damage the Occultist's marked ground deals to unnatural crossers.
    pub ground_ward_damage: u16,
    /// Stamina restored at the start of each hunter local turn.
    pub stamina_regen_per_turn: u8,
    /// Health fraction (percent) at or below which Killing Blow is enabled.
    pub killing_blow_health_percent: u8,
}

#[derive(Debug, Clone)]
pub struct ClockBalance {
    /// Global travel turns before the final hunt begins.
    pub travel_turns: u8,
    /// Global turn on which the scheme's minor event fires.
    pub minor_event_turn: u8,
    /// Global turn on which the scheme's major event fires.
    pub major_event_turn: u8,
}

#[derive(Debug, Clone)]
pub struct LootBalance {
    /// Chance in whole percent that an ordinary enemy drops loot on death.
    pub drop_percent: u8,
}

#[derive(Debug, Clone)]
pub struct GeneratorBalance {
    /// Latest global turn by which the early hunt-ready route must complete.
    pub early_route_deadline: u8,
    /// Latest global turn by which the obvious fallback route must complete.
    pub fallback_route_deadline: u8,
    /// Maximum obscurity total allowed on the fallback route.
    pub fallback_obscurity_budget: u16,
    /// Maximum weighted effort cost allowed on a certified route.
    pub route_effort_budget: u16,
    /// Maximum travel legs allowed on a certified route.
    pub route_travel_budget: u8,
    /// Minimum planner-estimated final-fight viability, in permille.
    pub viability_threshold_permille: u16,
    /// Inclusive range for the seed-defined wilderness ambush chance, percent.
    pub ambush_percent_min: u8,
    pub ambush_percent_max: u8,
    /// Cover pockets each generated map must reserve.
    pub min_cover_pockets_per_map: u8,
}

#[derive(Debug, Clone)]
pub struct VisionBalance {
    /// Hunter field-of-view radius in tiles on tactical maps.
    pub fov_radius: u8,
}

/// The corroboration rule: how many identity proofs naming the quarry takes.
#[derive(Debug, Clone)]
pub struct CaseBalance {
    pub corroborating_proofs: u8,
}

// ---------------------------------------------------------------------------
// hunters
// ---------------------------------------------------------------------------
#[derive(Debug, Clone)]
pub struct HunterDef {
    pub name: StringId,
    /// One line placing this hunter in the valley, shown at selection.
    pub title: StringId,
    pub glyph: char,
    pub health: u16,
    pub lore_cap: u8,
    pub social_cap: u8,
    pub mystic_cap: u8,
    pub physical_cap: u8,
    pub stamina_cap: u8,
    /// Item ids granted at the start of a run (duplicates allowed).
    pub starting_items: Vec<String>,
    pub manoeuvres: Vec<ManoeuvreDef>,
    pub signatures: Vec<SignatureDef>,
}

/// Generic stamina manoeuvre shared by all hunters.
#[derive(Debug, Clone)]
pub struct ManoeuvreDef {
    pub id: String,
    pub name: StringId,
    pub stamina_cost: u8,
    pub effect: ManoeuvreEffect,
    pub description: StringId,
}

#[derive(Debug, Clone, Copy, PartialEq, Eq, Structural)]
pub enum ManoeuvreEffect {
    /// Next ranged attack this encounter always hits.
    SureRangedShot,
    /// Next melee attack deals damage multiplied by `numerator`/2 (x1.5 = 3).
    MeleeDamageMultiplier { numerator: u8 },
    /// Move `tiles` tiles in one action.
    Dash { tiles: u8 },
}

/// Hunter-specific signature ability fuelled by Physical points.
#[derive(Debug, Clone)]
pub struct SignatureDef {
    pub id: String,
    pub name: StringId,
    pub physical_cost: u8,
    pub effect: SignatureEffect,
    pub description: StringId,
}

#[derive(Debug, Clone, Copy, PartialEq, Eq, Structural)]
pub enum SignatureEffect {
    /// Place a snare on an adjacent tile; first enemy entering is held.
    SetSnare,
    /// Double-damage melee attack against an immobile or wounded enemy.
    KillingBlow,
    /// Reinterpret one ambiguous identity sign already held, turning it into
    /// a discriminating proof.
    ReadTheSign,
    /// Mark the ground around the hunter: unnatural things crossing it are
    /// torn at for the crossing.
    WardTheGround { turns: u8, radius: u8 },
    /// A villager stands with the hunter for a few turns, adding blows and
    /// taking some of what comes back.
    SecondInTheFight { turns: u8, damage_per_turn: u16 },
}

// ---------------------------------------------------------------------------
// enemies and villains
// ---------------------------------------------------------------------------
#[derive(Debug, Clone)]
pub struct EnemyDef {
    pub name: StringId,
    pub glyph: char,
    pub health: u16,
    pub melee_damage: u16,
    /// Attack hit chance in whole percent.
    pub hit_percent: u8,
    pub behaviour: EnemyBehaviour,
    /// Whether this thing is unnatural: warded ground bites it.
    pub unnatural: bool,
    /// Optional ranged attack (bandits).
    pub ranged: Option<EnemyRanged>,
    pub description: StringId,
}

#[derive(Debug, Clone, Copy, PartialEq, Eq, Structural)]
pub enum EnemyBehaviour {
    /// Direct chase, full speed (wolves).
    PackHunter,
    /// Keeps distance and shoots when it can (bandits).
    Skirmisher,
    /// Moves only every other encounter turn (restless dead).
    Shambler,
}

#[derive(Debug, Clone, Copy)]
pub struct EnemyRanged {
    pub damage: u16,
    pub hit_percent: u8,
    pub range: u8,
}

#[derive(Debug, Clone)]
pub struct VillainDef {
    pub name: StringId,
    pub glyph: char,
    pub health: u16,
    pub melee_damage: u16,
    pub hit_percent: u8,
    /// Extra health granted per threat tier.
    pub tier_bonus_health: u16,
    /// Enhanced behaviours unlocked at threat tiers 1 and 2, in order.
    pub tier_behaviours: Vec<TierBehaviour>,
    /// Where this villain hides: an NPC host or a dormant grave.
    pub concealment: Concealment,
    pub pounce: Option<PounceDef>,
    pub regeneration: Option<RegenerationDef>,
    pub cadence: Option<CadenceDef>,
    /// A hex-ward that soaks blows until broken (the Witch).
    pub ward: Option<WardDef>,
    /// Item id that acts as this villain's decisive weakness counter.
    pub weakness_item: String,
    /// Whether the church consecration rite affects this villain.
    pub affected_by_consecration: bool,
    pub description: StringId,
}

/// A standing hex-ward: it soaks a number of blows before collapsing, and
/// the villain's weakness item cuts straight through it.
#[derive(Debug, Clone)]
pub struct WardDef {
    /// Blows the ward absorbs before it breaks.
    pub charges: u8,
    /// Damage that still leaks through each warded blow.
    pub leak_damage: u16,
    /// Encounter turns after breaking before the ward is rewoven.
    pub reweave_turns: u8,
    pub absorb_telegraph: StringId,
    pub break_telegraph: StringId,
    pub reweave_telegraph: StringId,
}

#[derive(Debug, Clone)]
pub struct TierBehaviour {
    pub id: String,
    pub name: StringId,
    pub effect: TierEffect,
    /// Event-log telegraph shown when the tier activates.
    pub telegraph: StringId,
}

#[derive(Debug, Clone, Copy, PartialEq, Eq, Structural)]
pub enum TierEffect {
    PounceCooldown { turns: u8 },
    DashCooldown { turns: u8 },
    BonusMeleeDamage { amount: u16 },
    /// Additional hex-ward charges (the Witch).
    WardCharges { amount: u8 },
}

#[derive(Debug, Clone, Copy, PartialEq, Eq, Structural)]
pub enum Concealment {
    /// The villain is secretly one of the generated NPCs.
    NpcHost,
    /// The villain lies dormant in a generated grave.
    DormantGrave,
}

#[derive(Debug, Clone)]
pub struct PounceDef {
    /// Maximum pounce distance along a clear line of sight.
    pub range: u8,
    /// Encounter turns between pounces.
    pub cooldown: u8,
    pub telegraph: StringId,
}

#[derive(Debug, Clone)]
pub struct RegenerationDef {
    /// Health regained per encounter turn until stopped by the weakness item.
    pub per_turn: u16,
    pub telegraph: StringId,
}

/// Revenant-style shared vulnerability/dash cadence.
#[derive(Debug, Clone)]
pub struct CadenceDef {
    /// Length of the cadence cycle in encounter turns.
    pub period: u8,
    /// Tiles moved by a dash in a straight line.
    pub dash_tiles: u8,
    /// Consecutive vulnerable turns forced by the binding counter item.
    pub bound_vulnerable_turns: u8,
    /// Ongoing damage per turn while on consecrated ground.
    pub consecrated_damage_per_turn: u16,
    pub vulnerable_telegraph: StringId,
    pub dash_telegraph: StringId,
    pub guarded_telegraph: StringId,
}

// ---------------------------------------------------------------------------
// origins and schemes
// ---------------------------------------------------------------------------
/// An origin changes the villain's signs and, decisively, which reagent the
/// villain's counter must be quenched with.
#[derive(Debug, Clone)]
pub struct OriginDef {
    pub name: StringId,
    /// Clue-site kinds this origin emphasises when placing identity clues.
    pub sign_sites: Vec<SiteKind>,
    /// Item id every decisive counter recipe additionally requires.
    pub counter_reagent: String,
    /// Shown when a counter is crafted with this origin's reagent.
    pub counter_flavour: StringId,
    pub description: StringId,
}

/// A scheme controls the timed events, the minion family, and the one
/// pre-emption that can blunt its escalation.
#[derive(Debug, Clone)]
pub struct SchemeDef {
    pub name: StringId,
    /// Enemy id of the minion family this scheme fields.
    pub minion_enemy: String,
    pub minor_event: SchemeEvent,
    pub major_event: SchemeEvent,
    /// The act that, taken before the major event, blunts this scheme.
    pub preempt: SchemePreempt,
    pub description: StringId,
}

/// Disrupting a scheme before its major event.
#[derive(Debug, Clone)]
pub struct SchemePreempt {
    pub name: StringId,
    /// Where the act can be performed.
    pub site: SiteKind,
    /// Map template role the site must belong to.
    pub map_role: MapRole,
    pub pool: PoolKind,
    pub cost: u8,
    pub prompt: StringId,
    pub reveal: StringId,
    /// Logged when the major event fires already blunted.
    pub blunted_text: StringId,
}

#[derive(Debug, Clone)]
pub struct SchemeEvent {
    pub name: StringId,
    /// Event-log text when the event fires.
    pub text: StringId,
    /// Map id on which the event leaves a visible mark.
    pub site_map: String,
    /// Minions spawned on the marked map when the event fires.
    pub spawn_minions: u8,
}

// ---------------------------------------------------------------------------
// items and recipes
// ---------------------------------------------------------------------------
#[derive(Debug, Clone)]
pub struct ItemDef {
    pub name: StringId,
    pub glyph: char,
    pub kind: ItemKind,
    pub description: StringId,
}

#[derive(Debug, Clone, PartialEq, Eq)]
pub enum ItemKind {
    MeleeWeapon { damage: u16 },
    RangedWeapon { damage: u16, range: u8, ammo: String },
    Ammunition,
    /// Special ammunition that also carries a weakness payload.
    WeaknessAmmunition { damage: u16, stops_regeneration: bool },
    /// A melee counter that cuts straight through a hex-ward (cold iron).
    WeaknessBlade { damage: u16 },
    /// Consumable drink; restores health, consumes the encounter action.
    Draught { heal: u16 },
    /// Consumable used adjacent to a villain with a cadence (binding charm).
    BindingCharm,
    Ingredient,
    Coin,
    /// Craftable but useless in the hunt; texture and red herrings.
    Curio,
}

#[derive(Debug, Clone)]
pub struct RecipeDef {
    pub name: StringId,
    /// Item ids consumed (duplicates allowed for quantities).
    pub inputs: Vec<String>,
    /// Item id produced.
    pub output: String,
    /// Decisive counters must additionally be quenched with the reagent of
    /// the case's origin.
    pub requires_origin_reagent: bool,
    pub description: StringId,
}

// ---------------------------------------------------------------------------
// clues
// ---------------------------------------------------------------------------
/// Template for a generated clue opportunity.
#[derive(Debug, Clone)]
pub struct ClueTemplate {
    pub name: StringId,
    pub category: ClueCategory,
    /// Evidence claim on this category's axis: the values the sign is
    /// consistent with. Empty means "consistent with anything on the axis".
    pub supports: Vec<String>,
    /// Values on this category's axis that the clue positively eliminates.
    pub rules_out: Vec<String>,
    /// Cross-axis placement scoping (empty means any).
    pub villains: Vec<String>,
    pub origins: Vec<String>,
    pub schemes: Vec<String>,
    pub action: OpportunityAction,
    pub pool: PoolKind,
    /// Site kind where the generator may place this clue.
    pub site: SiteKind,
    /// Which church slot to anchor to; required exactly for church clues.
    pub church_slot: Option<ChurchSlot>,
    /// 0 = obvious .. 3 = niche.
    pub obscurity: u8,
    /// Items granted directly on resolution. Usually empty.
    pub grants_items: Vec<String>,
    /// Opportunity text shown before the clue is taken.
    pub prompt: StringId,
    /// Event-log / journal text once revealed.
    pub reveal: StringId,
}

/// A scoping list admits `value` when it is empty or names it.
pub open spec fn scoped(list: Seq<Seq<char>>, value: Seq<char>) -> bool {
    list.len() == 0 || list.contains(value)
}

/// The case value a clue's own axis claim is judged against.
pub open spec fn axis_value(
    axis: EvidenceAxis,
    villain: Seq<char>,
    origin: Seq<char>,
    scheme: Seq<char>,
) -> Seq<char> {
    match axis {
        EvidenceAxis::Villain => villain,
        EvidenceAxis::Origin => origin,
        EvidenceAxis::Scheme => scheme,
    }
}

fn scoped_exec(list: &Vec<String>, value: &str) -> (r: bool)
    ensures
        r == scoped(texts(list@), value@),
{
    list.len() == 0 || list_contains(list, value)
}

impl ClueTemplate {
    pub open spec fn spec_is_discriminating(&self) -> bool {
        self.rules_out.len() > 0
    }

    /// Whether this clue may appear in a case with the given composition:
    /// every scoping list admits the case, and the claim on its own axis is
    /// true of it.
    pub open spec fn spec_fits(&self, villain: Seq<char>, origin: Seq<char>, scheme: Seq<char>) -> bool {
        &&& scoped(texts(self.villains@), villain)
        &&& scoped(texts(self.origins@), origin)
        &&& scoped(texts(self.schemes@), scheme)
        &&& match self.category.spec_axis() {
            None => true,
            Some(axis) => {
                let actual = axis_value(axis, villain, origin, scheme);
                scoped(texts(self.supports@), actual) && !texts(self.rules_out@).contains(actual)
            },
        }
    }

    /// A clue that eliminates at least one alternative on its own axis.
    pub fn is_discriminating(&self) -> (r: bool)
        ensures
            r == self.spec_is_discriminating(),
    {
        self.rules_out.len() != 0
    }

    /// Whether this clue may appear in a case with the given composition.
    pub fn fits(&self, villain: &str, origin: &str, scheme: &str) -> (r: bool)
        ensures
            r == self.spec_fits(villain@, origin@, scheme@),
    {
        if !scoped_exec(&self.villains, villain) || !scoped_exec(&self.origins, origin)
            || !scoped_exec(&self.schemes, scheme) {
            return false;
        }
        match self.category.axis() {
            None => true,
            Some(axis) => {
                let actual = match axis {
                    EvidenceAxis::Villain => villain,
                    EvidenceAxis::Origin => origin,
                    EvidenceAxis::Scheme => scheme,
                };
                scoped_exec(&self.supports, actual) && !list_contains(&self.rules_out, actual)
            },
        }
    }
}

/// The three axes a case is composed on. Evidence speaks to exactly one.
#[derive(Debug, Clone, Copy, PartialEq, Eq, Structural)]
pub enum EvidenceAxis {
    Villain,
    Origin,
    Scheme,
}

#[derive(Debug, Clone, Copy, PartialEq, Eq, Structural)]
pub enum ClueCategory {
    /// Corroborating identity evidence; speaks to the villain axis.
    Identity,
    /// A sign of how the evil began; speaks to the origin axis.
    OriginSign,
    /// A sign of what the evil is working toward; speaks to the scheme axis.
    SchemeSign,
    /// Reveals where the villain rests or who hosts it.
    Location,
    /// Reveals a specific weakness preparation.
    Weakness,
    /// Grants crafting ingredients.
    IngredientSource,
}

impl ClueCategory {
    pub open spec fn spec_axis(self) -> Option<EvidenceAxis> {
        match self {
            ClueCategory::Identity => Some(EvidenceAxis::Villain),
            ClueCategory::OriginSign => Some(EvidenceAxis::Origin),
            ClueCategory::SchemeSign => Some(EvidenceAxis::Scheme),
            _ => None,
        }
    }

    /// The case axis this category makes claims about, if any.
    pub fn axis(self) -> (r: Option<EvidenceAxis>)
        ensures
            r == self.spec_axis(),
    {
        match self {
            ClueCategory::Identity => Some(EvidenceAxis::Villain),
            ClueCategory::OriginSign => Some(EvidenceAxis::Origin),
            ClueCategory::SchemeSign => Some(EvidenceAxis::Scheme),
            ClueCategory::Location | ClueCategory::Weakness | ClueCategory::IngredientSource => {
                None
            },
        }
    }
}

#[derive(Debug, Clone, Copy, PartialEq, Eq, Structural)]
pub enum OpportunityAction {
    Examine,
    Track,
    Gossip,
    Persuade,
    Spy,
    Commune,
    Scavenge,
    /// Physical-point forceful actions: open grave, force door, shift rubble.
    Force,
}

#[derive(Debug, Clone, Copy, PartialEq, Eq, PartialOrd, Ord, Structural)]
pub enum PoolKind {
    Lore,
    Social,
    Mystic,
    Physical,
}

/// Where on the generated maps a clue or feature can live.
#[derive(Debug, Clone, Copy, PartialEq, Eq, Structural)]
pub enum SiteKind {
    KillSite,
    Npc,
    Grave,
    Church,
    Wilds,
    OutlyingSite,
    Workstation,
}

/// Which church slot a `Church`-site clue anchors to.
#[derive(Debug, Clone, Copy, PartialEq, Eq, Structural)]
pub enum ChurchSlot {
    Candles,
    Records,
}

impl ChurchSlot {
    /// Map slot id this anchors to.
    pub fn slot_id(self) -> (r: &'static str)
        ensures
            self == ChurchSlot::Candles ==> r@ == "church-candles"@,
            self == ChurchSlot::Records ==> r@ == "church-records"@,
    {
        match self {
            ChurchSlot::Candles => "church-candles",
            ChurchSlot::Records => "church-records",
        }
    }
}

// ---------------------------------------------------------------------------
// npcs
// ---------------------------------------------------------------------------
#[derive(Debug, Clone)]
pub struct NpcCatalogue {
    pub archetypes: KeyedMap<NpcArchetype>,
    pub secrets: KeyedMap<SecretTemplate>,
    /// Relationship kinds the generator may draw for NPC links.
    pub relationship_kinds: Vec<RelationshipKind>,
    /// Names for the settled dead: grave markers and revenant identities.
    pub deceased_name_pool: Vec<StringId>,
}

#[derive(Debug, Clone)]
pub struct NpcArchetype {
    pub name: StringId,
    pub glyph: char,
    /// Names the generator draws from for this archetype.
    pub name_pool: Vec<StringId>,
    /// Map slot id where this NPC works during the day.
    pub work_slot: String,
    /// Whether this archetype can secretly host the Werewolf.
    pub can_host_villain: bool,
    /// Whether this NPC offers the mystical-favour route.
    pub mystical: bool,
    /// Secret template ids this archetype can carry.
    pub secrets: Vec<String>,
    pub description: StringId,
}

#[derive(Debug, Clone)]
pub struct SecretTemplate {
    pub name: StringId,
    /// A false secret must be optional and falsifiable via its disproof text.
    pub false_secret: bool,
    pub text: StringId,
    /// Present iff `false_secret`; revealed by the disproving opportunity.
    pub disproof: Option<StringId>,
}

#[derive(Debug, Clone)]
pub struct RelationshipKind {
    pub id: String,
    pub name: StringId,
    /// Text used when the link is discovered, with {a} and {b} placeholders.
    pub discovered_text: StringId,
}

// ---------------------------------------------------------------------------
// maps
// ---------------------------------------------------------------------------
#[derive(Debug, Clone)]
pub struct MapTemplate {
    pub name: StringId,
    pub role: MapRole,
    /// Exactly 20 rows of exactly 32 glyphs each.
    pub rows: Vec<String>,
    /// Glyph -> terrain legend for `rows`; a glyph means its first entry.
    pub legend: Vec<(char, Terrain)>,
    /// Named feature slots the generator fills or leaves empty.
    pub slots: Vec<SlotDef>,
    /// Paired exits to the other maps.
    pub exits: Vec<ExitDef>,
    /// Reserved cover pockets.
    pub cover_pockets: Vec<CoverPocket>,
    /// Baseline enemies present from the start of a run.
    pub initial_enemies: Vec<InitialEnemy>,
    /// Authored variation packs; a run draws a compatible subset per map.
    pub packs: Vec<VariationPack>,
    pub description: StringId,
}

/// A compatible variation on a template: the same place on a different day.
#[derive(Debug, Clone)]
pub struct VariationPack {
    pub id: String,
    /// One line of incidental fiction, logged on first arrival.
    pub label: StringId,
    /// Slot id -> new coordinate on this template.
    pub slot_moves: KeyedMap<Coord>,
    /// Terrain rewrites.
    pub terrain_patches: Vec<TerrainPatch>,
    /// Extra ordinary enemies, clustered near a slot.
    pub extra_enemies: Vec<InitialEnemy>,
    /// Packs on the same template that may not be drawn together.
    pub conflicts_with: Vec<String>,
}

#[derive(Debug, Clone, Copy, PartialEq, Eq)]
pub struct TerrainPatch {
    pub at: Coord,
    pub to: Terrain,
}

#[derive(Debug, Clone)]
pub struct InitialEnemy {
    /// Enemy id in the enemy table.
    pub enemy: String,
    /// Slot id the spawn clusters around.
    pub near_slot: String,
    pub count: u8,
}

#[derive(Debug, Clone, Copy, PartialEq, Eq, Structural)]
pub enum MapRole {
    Settlement,
    Wilderness,
    OutlyingSite,
}

pub open spec fn spec_role_order() -> Seq<MapRole> {
    seq![MapRole::Settlement, MapRole::Wilderness, MapRole::OutlyingSite]
}

impl MapRole {
    /// Every role, in the fixed order maps are laid out in a world.
    /// Settlement is always first, and so always `MapId(0)`.
    pub const ORDER: [MapRole; 3] = [
        MapRole::Settlement,
        MapRole::Wilderness,
        MapRole::OutlyingSite,
    ];

    pub open spec fn spec_from_content(name: Seq<char>) -> Option<MapRole> {
        if name == "settlement"@ {
            Some(MapRole::Settlement)
        } else if name == "wilderness"@ {
            Some(MapRole::Wilderness)
        } else if name == "outlying"@ || name == "outlying-site"@ {
            Some(MapRole::OutlyingSite)
        } else {
            None
        }
    }

    pub open spec fn spec_label(self) -> Seq<char> {
        match self {
            MapRole::Settlement => "settlement"@,
            MapRole::Wilderness => "wilderness"@,
            MapRole::OutlyingSite => "outlying"@,
        }
    }

    /// Resolve the role a content anchor names. Content says "outlying"
    /// because that is what the place is called; the role is spelled out.
    pub fn from_content(name: &str) -> (r: Option<MapRole>)
        ensures
            r == Self::spec_from_content(name@),
    {
        if text_eq(name, "settlement") {
            Some(MapRole::Settlement)
        } else if text_eq(name, "wilderness") {
            Some(MapRole::Wilderness)
        } else if text_eq(name, "outlying") || text_eq(name, "outlying-site") {
            Some(MapRole::OutlyingSite)
        } else {
            None
        }
    }

    pub fn label(self) -> (r: &'static str)
        ensures
            r@ == self.spec_label(),
    {
        match self {
            MapRole::Settlement => "settlement",
            MapRole::Wilderness => "wilderness",
            MapRole::OutlyingSite => "outlying",
        }
    }
}

#[derive(Debug, Clone, Copy, PartialEq, Eq, Structural)]
pub enum Terrain {
    Floor,
    Wall,
    Tree,
    Water,
    Grave,
    Door,
    /// Requires a Physical point to force open.
    BarredDoor,
    /// Requires a Physical point to shift.
    Rubble,
    Road,
    Grass,
    Altar,
    Workstation,
}

pub open spec fn spec_walkable(t: Terrain) -> bool {
    t == Terrain::Floor || t == Terrain::Door || t == Terrain::Road || t == Terrain::Grass
        || t == Terrain::Grave
}

pub open spec fn spec_forceable(t: Terrain) -> bool {
    t == Terrain::BarredDoor || t == Terrain::Rubble
}

pub open spec fn spec_opaque(t: Terrain) -> bool {
    t == Terrain::Wall || t == Terrain::Tree || t == Terrain::Rubble || t == Terrain::BarredDoor
}

/// Whether actors can stand on this terrain.
pub fn is_walkable(terrain: Terrain) -> (r: bool)
    ensures
        r == spec_walkable(terrain),
{
    match terrain {
        Terrain::Floor | Terrain::Door | Terrain::Road | Terrain::Grass | Terrain::Grave => true,
        _ => false,
    }
}

/// Whether this terrain can be cleared with a Physical-point forceful action.
pub fn is_forceable(terrain: Terrain) -> (r: bool)
    ensures
        r == spec_forceable(terrain),
{
    match terrain {
        Terrain::BarredDoor | Terrain::Rubble => true,
        _ => false,
    }
}

/// Whether this terrain blocks line of sight (and pounce lanes).
pub fn is_opaque(terrain: Terrain) -> (r: bool)
    ensures
        r == spec_opaque(terrain),
{
    match terrain {
        Terrain::Wall | Terrain::Tree | Terrain::Rubble | Terrain::BarredDoor => true,
        _ => false,
    }
}

#[derive(Debug, Clone)]
pub struct SlotDef {
    pub id: String,
    pub kind: SiteKind,
    pub at: Coord,
    /// Display name for a landmark placed here.
    pub label: StringId,
}

#[derive(Debug, Clone)]
pub struct ExitDef {
    /// Map role this exit leads to.
    pub to: String,
    pub at: Coord,
}

#[derive(Debug, Clone)]
pub struct CoverPocket {
    /// Tiles forming this pocket; must be opaque terrain in `rows`.
    pub tiles: Vec<Coord>,
}

// ---------------------------------------------------------------------------
// gathers
// ---------------------------------------------------------------------------
/// A placeable gathering/looting opportunity anchored to a map slot.
#[derive(Debug, Clone)]
pub struct GatherDef {
    pub name: StringId,
    /// Map template id the anchor slot belongs to.
    pub map: String,
    /// Slot id the opportunity sits on.
    pub slot: String,
    /// Pool the action draws from; `None` for a free interaction.
    pub pool: Option<PoolKind>,
    pub cost: u8,
    /// Item ids granted (duplicates encode quantity).
    pub items: Vec<String>,
    pub discovery: GatherDiscovery,
    pub prompt: StringId,
    pub reveal: StringId,
}

#[derive(Debug, Clone, PartialEq, Eq)]
pub enum GatherDiscovery {
    /// Discovered when the anchor tile is first seen.
    Sight,
    /// Only revealed by resolving the named clue template.
    RevealedByClue { clue: String },
    /// Discovered by sight, or revealed early by the named clue template.
    SightOrClue { clue: String },
}

// ---------------------------------------------------------------------------
// grimoire / openings / ui
// ---------------------------------------------------------------------------
#[derive(Debug, Clone)]
pub struct GrimoireEntry {
    pub id: String,
    pub title: StringId,
    /// Fictional prose; numeric rules stay out of the grimoire by design.
    pub body: StringId,
}

#[derive(Debug, Clone)]
pub struct OpeningsFile {
    pub openings: Vec<OpeningDef>,
    pub conditions: Vec<ConditionDef>,
}

/// What the valley is like as the hunter comes into it. A run draws exactly
/// one per axis: most are texture, a few have teeth.
#[derive(Debug, Clone)]
pub struct ConditionDef {
    pub id: String,
    pub axis: ConditionAxis,
    /// Absent means cosmetic.
    pub effect: Option<ConditionEffect>,
    pub body: Vec<StringId>,
}

#[derive(Debug, Clone, Copy, PartialEq, Eq, Structural)]
pub enum ConditionAxis {
    Season,
    Reception,
    Hour,
    Provenance,
}

impl ConditionAxis {
    /// Every axis, in the order a run's conditions are drawn and read.
    pub const ORDER: [ConditionAxis; 4] = [
        ConditionAxis::Season,
        ConditionAxis::Reception,
        ConditionAxis::Hour,
        ConditionAxis::Provenance,
    ];
}

/// What an effectful condition does. Banes never touch the final fight.
#[derive(Debug, Clone, PartialEq, Eq)]
pub enum ConditionEffect {
    /// Consequential Social actions cost one more.
    SocialSurcharge,
    /// Percentage points added to the wilderness ambush chance.
    Ambush { percent: u8 },
    /// Tiles taken off the hunter's field of view.
    ShortSight { tiles: u8 },
    /// Extra ordinary enemies away from the settlement.
    Pressure { extra: u8 },
    /// Percentage points taken off the wilderness ambush chance.
    QuietRoads { percent: u8 },
    /// Tiles added to the hunter's field of view.
    LongSight { tiles: u8 },
    /// One extra of an item in the pack at the start.
    WellSupplied { item: String },
}

impl ConditionEffect {
    pub open spec fn spec_is_bane(&self) -> bool {
        match self {
            ConditionEffect::SocialSurcharge => true,
            ConditionEffect::Ambush { .. } => true,
            ConditionEffect::ShortSight { .. } => true,
            ConditionEffect::Pressure { .. } => true,
            _ => false,
        }
    }

    /// Whether this makes the run worse.
    pub fn is_bane(&self) -> (r: bool)
        ensures
            r == self.spec_is_bane(),
    {
        match self {
            ConditionEffect::SocialSurcharge | ConditionEffect::Ambush { .. }
            | ConditionEffect::ShortSight { .. } | ConditionEffect::Pressure { .. } => true,
            _ => false,
        }
    }

    /// Whether route certification has to be run with this applied. Only a
    /// bane can force this.
    pub fn is_certification_visible(&self) -> (r: bool)
        ensures
            r == (self is SocialSurcharge),
            r ==> self.spec_is_bane(),
    {
        match self {
            ConditionEffect::SocialSurcharge => true,
            _ => false,
        }
    }
}

impl ConditionDef {
    pub open spec fn spec_is_cosmetic(&self) -> bool {
        self.effect.is_none()
    }

    pub open spec fn spec_is_bane(&self) -> bool {
        match self.effect {
            Some(e) => e.spec_is_bane(),
            None => false,
        }
    }

    pub open spec fn spec_is_boon(&self) -> bool {
        match self.effect {
            Some(e) => !e.spec_is_bane(),
            None => false,
        }
    }

    pub fn is_cosmetic(&self) -> (r: bool)
        ensures
            r == self.spec_is_cosmetic(),
    {
        self.effect.is_none()
    }

    pub fn is_bane(&self) -> (r: bool)
        ensures
            r == self.spec_is_bane(),
    {
        match &self.effect {
            Some(e) => e.is_bane(),
            None => false,
        }
    }

    pub fn is_boon(&self) -> (r: bool)
        ensures
            r == self.spec_is_boon(),
    {
        match &self.effect {
            Some(e) => !e.is_bane(),
            None => false,
        }
    }
}

/// Every condition is exactly one of cosmetic, bane, or boon.
pub proof fn lemma_condition_kind_partition(c: ConditionDef)
    ensures
        (c.spec_is_cosmetic() as int) + (c.spec_is_bane() as int) + (c.spec_is_boon() as int) == 1,
{
}

/// How a run opens. A generic hook frames the hunt and claims nothing about
/// the case; a keyed one explains the single node the hunter already holds.
#[derive(Debug, Clone)]
pub struct OpeningDef {
    pub id: String,
    /// Where the banked node sits. Absent means a generic hook.
    pub anchor: Option<OpeningAnchor>,
    /// What the banked node gave. Absent means a generic hook.
    pub grant: Option<OpeningGrant>,
    /// Prose paragraphs; `{npc}`, `{clue}`, and `{place}` are substituted.
    pub body: Vec<StringId>,
}

#[derive(Debug, Clone, Copy, PartialEq, Eq, Structural)]
pub enum OpeningAnchor {
    /// Anchored on a place: the hunter stopped on the way past.
    Tile,
    /// Anchored on a person: somebody got to the hunter first.
    Npc,
}

/// The kinds of node that may be banked before play.
#[derive(Debug, Clone, Copy, PartialEq, Eq, Structural)]
pub enum OpeningGrant {
    Items,
    Lead,
    /// A soft identity sign, never a discriminating one.
    Identity,
}

impl OpeningDef {
    pub open spec fn spec_is_generic(&self) -> bool {
        self.anchor.is_none() && self.grant.is_none()
    }

    pub open spec fn spec_matches(&self, anchor: OpeningAnchor, grant: OpeningGrant) -> bool {
        self.anchor == Some(anchor) && self.grant == Some(grant)
    }

    /// Whether this opening frames the hunt without explaining a banked node.
    pub fn is_generic(&self) -> (r: bool)
        ensures
            r == self.spec_is_generic(),
    {
        self.anchor.is_none() && self.grant.is_none()
    }

    pub fn matches(&self, anchor: OpeningAnchor, grant: OpeningGrant) -> (r: bool)
        ensures
            r == self.spec_matches(anchor, grant),
    {
        match (self.anchor, self.grant) {
            (Some(a), Some(g)) => a == anchor && g == grant,
            _ => false,
        }
    }
}

#[derive(Debug, Clone)]
pub struct UiText {
    pub splash_title: StringId,
    /// One id per paragraph.
    pub splash_intro: Vec<StringId>,
    pub key_bindings: Vec<KeyBinding>,
}

#[derive(Debug, Clone)]
pub struct KeyBinding {
    pub keys: StringId,
    pub action: StringId,
}

// ---------------------------------------------------------------------------
// machines and events
// ---------------------------------------------------------------------------
/// An authored optional machine embedded in one template.
#[derive(Debug, Clone)]
pub struct MachineDef {
    pub name: StringId,
    /// The template this machine is built into.
    pub template: String,
    /// Where the lever or counter sits.
    pub at: Coord,
    pub effect: MachineEffect,
    pub prompt: StringId,
    pub reveal: StringId,
}

#[derive(Debug, Clone, PartialEq, Eq)]
pub enum MachineEffect {
    /// Rewrite terrain: a sluice drains a ford, a hidden passage opens.
    Patch { patches: Vec<TerrainPatch> },
    /// Drive every enemy on the map away from the machine.
    Scatter { tiles: u8 },
    /// Raise warding ground centred on the machine.
    Ward { turns: u8, radius: u8 },
}

/// One optional mission event.
#[derive(Debug, Clone)]
pub struct EventDef {
    /// Map roles this event can appear on.
    pub roles: Vec<String>,
    /// Schemes this event belongs to; empty means any.
    pub schemes: Vec<String>,
    pub effect: EventEffect,
    /// Logged when the event fires.
    pub body: StringId,
}

#[derive(Debug, Clone, PartialEq, Eq)]
pub enum EventEffect {
    /// Pure fiction.
    Fiction,
    /// An enemy arrives nearby.
    Spawn { enemy: String, count: u8 },
    /// Something changes hands.
    Cache { items: Vec<String> },
    /// An undiscovered opportunity on this map announces itself.
    Reveal,
}

} // verus!
