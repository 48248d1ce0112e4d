//! The frame viewmodel: everything a renderer needs, nothing it must compute.
//!
//! Both clients draw exactly this structure (a glyph grid with semantic
//! colors, side-panel lines, menus, and overlays), so terminal and browser
//! presentations cannot drift apart in behaviour.
use vstd::prelude::*;

use crate::client::{ActionEntry, SightEntry};
use crate::events::EventKind;
use crate::fov::grid_point;
use crate::geometry::{spec_in_bounds, Point, MAP_HEIGHT, MAP_WIDTH};
use crate::schema::{PoolKind, Terrain};
use crate::sim::Sim;
use crate::state::{
    living_at, npc_count, npc_here, state_terrain, terrain_readable, Actor, ActorKind, NpcState, Snare,
};
use crate::world::{
    first_feature, tile_index, ExitSpec, FeatureId, FeatureKind, FeatureSpec, MapId, NpcSpec, OpportunityAnchor,
    OpportunityId,
};
use crate::strings::StringTable;
use crate::text::text_owned;

verus! {

/// Semantic cell colors; each client maps them to its palette.
#[derive(Debug, Clone, Copy, PartialEq, Eq, Structural)]
pub enum CellColor {
    Hunter,
    Npc,
    Enemy,
    Villain,
    VillainVulnerable,
    Terrain,
    TerrainDim,
    Feature,
    Opportunity,
    Exit,
    Snare,
    Unseen,
}

#[derive(Debug, Clone, Copy, PartialEq, Eq, Structural)]
pub struct Cell {
    pub glyph: char,
    pub color: CellColor,
}

#[derive(Debug, Clone)]
pub struct ViewModel {
    pub screen: ScreenView,
    /// One-line status (rejection reasons, hints).
    pub status: String,
    /// Panel chrome, resolved here so neither renderer holds prose of its own.
    pub labels: PanelLabels,
}

/// The fixed furniture around the frame: panel titles and idle hints.
///
/// These live on the viewmodel rather than in each renderer so the terminal
/// and the browser cannot drift, and so every word the player reads resolves
/// through one string table.
#[derive(Debug, Clone)]
pub struct PanelLabels {
    pub hunter: String,
    pub actions: String,
    pub record: String,
    pub detail: String,
    pub case_report: String,
    pub pack: String,
    /// Heading and empty-state for the in-sight panel.
    pub in_sight: String,
    pub in_sight_empty: String,
    /// Textual markers so hostility in the sight list is not colour alone.
    pub sight_hostile: String,
    pub sight_villager: String,
    /// Heading for the map-key panel.
    pub legend: String,
    /// Heading for the case report's what-you-carried section.
    pub preparations: String,
    /// Heading for the look panel, by how the player is pointing.
    pub look_cursor: String,
    pub look_hover: String,
    pub look_plain: String,
    /// Shown in the look panel when nothing is targeted.
    pub look_hint: String,
    /// Shown while a direction is awaited.
    pub direction_hint: String,
    /// Footer on list screens.
    pub list_hint: String,
    /// Case report headings, each with a `{what}` slot.
    pub report_villain: String,
    pub report_origin: String,
    pub report_scheme: String,
    /// Footer on the case report.
    pub case_report_footer: String,
}

impl PanelLabels {
    /// Every label, resolved through the string table.
    pub fn build(strings: &StringTable) -> (r: Self)
        ensures
            r.hunter@ == strings.resolve("ui.panel.hunter"@),
            r.actions@ == strings.resolve("ui.panel.actions"@),
            r.record@ == strings.resolve("ui.panel.record"@),
            r.detail@ == strings.resolve("ui.panel.detail"@),
            r.case_report@ == strings.resolve("ui.panel.case-report"@),
            r.pack@ == strings.resolve("ui.panel.pack"@),
            r.in_sight@ == strings.resolve("ui.panel.in-sight"@),
            r.in_sight_empty@ == strings.resolve("ui.panel.in-sight-empty"@),
            r.sight_hostile@ == strings.resolve("ui.sight.hostile"@),
            r.sight_villager@ == strings.resolve("ui.sight.villager"@),
            r.legend@ == strings.resolve("ui.legend.title"@),
            r.preparations@ == strings.resolve("ui.report.preparations-title"@),
            r.look_cursor@ == strings.resolve("ui.panel.look-cursor"@),
            r.look_hover@ == strings.resolve("ui.panel.look-hover"@),
            r.look_plain@ == strings.resolve("ui.panel.look"@),
            r.look_hint@ == strings.resolve("ui.hint.look"@),
            r.direction_hint@ == strings.resolve("ui.hint.direction"@),
            r.list_hint@ == strings.resolve("ui.hint.list-nav"@),
            r.report_villain@ == strings.resolve("ui.report.heading.villain"@),
            r.report_origin@ == strings.resolve("ui.report.heading.origin"@),
            r.report_scheme@ == strings.resolve("ui.report.heading.scheme"@),
            r.case_report_footer@ == strings.resolve("ui.hint.case-report-footer"@),
    {
        PanelLabels {
            hunter: text_owned(strings.ui("ui.panel.hunter")),
            actions: text_owned(strings.ui("ui.panel.actions")),
            record: text_owned(strings.ui("ui.panel.record")),
            detail: text_owned(strings.ui("ui.panel.detail")),
            case_report: text_owned(strings.ui("ui.panel.case-report")),
            pack: text_owned(strings.ui("ui.panel.pack")),
            in_sight: text_owned(strings.ui("ui.panel.in-sight")),
            in_sight_empty: text_owned(strings.ui("ui.panel.in-sight-empty")),
            sight_hostile: text_owned(strings.ui("ui.sight.hostile")),
            sight_villager: text_owned(strings.ui("ui.sight.villager")),
            legend: text_owned(strings.ui("ui.legend.title")),
            preparations: text_owned(strings.ui("ui.report.preparations-title")),
            look_cursor: text_owned(strings.ui("ui.panel.look-cursor")),
            look_hover: text_owned(strings.ui("ui.panel.look-hover")),
            look_plain: text_owned(strings.ui("ui.panel.look")),
            look_hint: text_owned(strings.ui("ui.hint.look")),
            direction_hint: text_owned(strings.ui("ui.hint.direction")),
            list_hint: text_owned(strings.ui("ui.hint.list-nav")),
            report_villain: text_owned(strings.ui("ui.report.heading.villain")),
            report_origin: text_owned(strings.ui("ui.report.heading.origin")),
            report_scheme: text_owned(strings.ui("ui.report.heading.scheme")),
            case_report_footer: text_owned(strings.ui("ui.hint.case-report-footer")),
        }
    }
}

#[derive(Debug, Clone)]
pub enum ScreenView {
    Splash {
        title: String,
        intro: Vec<String>,
        bindings: Vec<(String, String)>,
        options: Vec<String>,
        selected: usize,
    },
    TextEntry { title: String, prompt: String, input: String, error: Option<String> },
    Run(Box<RunView>),
    List {
        title: String,
        /// (heading, body) pairs; body may be empty for plain lists.
        entries: Vec<(String, String)>,
        selected: Option<usize>,
    },
    CaseReport(CaseReportView),
}

/// One line of the pack: what it is called, and what it is for.
#[derive(Debug, Clone)]
pub struct PackItem {
    pub label: String,
    pub description: String,
}

#[derive(Debug, Clone)]
pub struct RunView {
    /// Row-major 32x20 grid.
    pub cells: Vec<Cell>,
    pub header: String,
    pub clock_line: String,
    pub health_line: String,
    pub pools_line: String,
    pub stamina_line: String,
    /// What is in the pack, each with what it actually does; the clients
    /// show the description on hover, so a player never has to guess what a
    /// name means.
    pub inventory: Vec<PackItem>,
    /// Everything currently in sight, nearest first, hostiles before people.
    pub in_sight: Vec<SightEntry>,
    /// A first-time teaching line for this frame, if one fired.
    pub hint: Option<String>,
    /// The context-sensitive, clickable action panel.
    pub actions: Vec<ActionEntry>,
    pub log_tail: Vec<(EventKind, String)>,
    /// What the look cursor / mouse is pointing at, if anything.
    pub cursor: Option<Point>,
    /// Whether keyboard look mode is engaged (marker vs. passive hover).
    pub looking: bool,
    /// Inspection text for the cursor tile; `None` when nothing is targeted.
    pub inspect: Option<String>,
    /// A key to the glyphs on the map: what each character means, so the map
    /// is never a picture a player has to have colour to read. Fixed
    /// vocabulary, not the live board: a legend, not a second map.
    pub legend: Vec<LegendEntry>,
    /// Active modal (menu / targeting), rendered as an overlay.
    pub overlay: Option<OverlayView>,
}

/// One row of the map key: a glyph and what it stands for.
#[derive(Debug, Clone)]
pub struct LegendEntry {
    pub glyph: char,
    pub meaning: String,
}

#[derive(Debug, Clone)]
pub struct OverlayView {
    pub title: String,
    /// (label, blocked-reason) pairs.
    pub items: Vec<(String, Option<String>)>,
    pub selected: usize,
}

#[derive(Debug, Clone)]
pub struct CaseReportView {
    pub outcome: String,
    pub villain: String,
    pub origin: String,
    pub scheme: String,
    pub hidden_clues: Vec<String>,
    /// How far the quarry's scheme got, in tiers.
    pub tier: String,
    /// What the hunter actually held and knew when it ended.
    pub preparations: Vec<String>,
    /// The certified routes, each step marked against what was really done.
    pub routes: Vec<String>,
    pub share_code: String,
}

/// The glyph a terrain is drawn with.
pub open spec fn spec_terrain_glyph(terrain: Terrain) -> char {
    match terrain {
        Terrain::Floor => '.',
        Terrain::Wall => '#',
        Terrain::Tree => 'T',
        Terrain::Water => '~',
        Terrain::Grave => 'n',
        Terrain::Door => '+',
        Terrain::BarredDoor => '=',
        Terrain::Rubble => '%',
        Terrain::Road => ':',
        Terrain::Grass => ',',
        Terrain::Altar => 'A',
        Terrain::Workstation => '=',
    }
}

pub fn terrain_glyph(terrain: Terrain) -> (r: char)
    ensures
        r == spec_terrain_glyph(terrain),
{
    match terrain {
        Terrain::Floor => '.',
        Terrain::Wall => '#',
        Terrain::Tree => 'T',
        Terrain::Water => '~',
        Terrain::Grave => 'n',
        Terrain::Door => '+',
        Terrain::BarredDoor => '=',
        Terrain::Rubble => '%',
        Terrain::Road => ':',
        Terrain::Grass => ',',
        Terrain::Altar => 'A',
        Terrain::Workstation => '=',
    }
}

/// The string id of a pool's name.
pub open spec fn pool_name_id(pool: PoolKind) -> Seq<char> {
    match pool {
        PoolKind::Lore => "ui.pool.lore"@,
        PoolKind::Social => "ui.pool.social"@,
        PoolKind::Mystic => "ui.pool.mystic"@,
        PoolKind::Physical => "ui.pool.physical"@,
    }
}

/// A pool's name as the player reads it, through the string table so it
/// can be translated.
pub fn pool_name<'a>(strings: &'a StringTable, pool: PoolKind) -> (r: &'a str)
    ensures
        r@ == strings.resolve(pool_name_id(pool)),
{
    match pool {
        PoolKind::Lore => strings.ui("ui.pool.lore"),
        PoolKind::Social => strings.ui("ui.pool.social"),
        PoolKind::Mystic => strings.ui("ui.pool.mystic"),
        PoolKind::Physical => strings.ui("ui.pool.physical"),
    }
}

/// The string id of a terrain's name.
pub open spec fn terrain_name_id(terrain: Terrain) -> Seq<char> {
    match terrain {
        Terrain::Floor => "ui.terrain.floor"@,
        Terrain::Wall => "ui.terrain.wall"@,
        Terrain::Tree => "ui.terrain.tree"@,
        Terrain::Water => "ui.terrain.water"@,
        Terrain::Grave => "ui.terrain.grave"@,
        Terrain::Door => "ui.terrain.door"@,
        Terrain::BarredDoor => "ui.terrain.barred-door"@,
        Terrain::Rubble => "ui.terrain.rubble"@,
        Terrain::Road => "ui.terrain.road"@,
        Terrain::Grass => "ui.terrain.grass"@,
        Terrain::Altar => "ui.terrain.altar"@,
        Terrain::Workstation => "ui.terrain.workstation"@,
    }
}

fn terrain_id(terrain: Terrain) -> (r: &'static str)
    ensures
        r@ == terrain_name_id(terrain),
{
    match terrain {
        Terrain::Floor => "ui.terrain.floor",
        Terrain::Wall => "ui.terrain.wall",
        Terrain::Tree => "ui.terrain.tree",
        Terrain::Water => "ui.terrain.water",
        Terrain::Grave => "ui.terrain.grave",
        Terrain::Door => "ui.terrain.door",
        Terrain::BarredDoor => "ui.terrain.barred-door",
        Terrain::Rubble => "ui.terrain.rubble",
        Terrain::Road => "ui.terrain.road",
        Terrain::Grass => "ui.terrain.grass",
        Terrain::Altar => "ui.terrain.altar",
        Terrain::Workstation => "ui.terrain.workstation",
    }
}

pub fn terrain_name<'a>(strings: &'a StringTable, terrain: Terrain) -> (r: &'a str)
    ensures
        r@ == strings.resolve(terrain_name_id(terrain)),
{
    strings.ui(terrain_id(terrain))
}

/// The map key's rows: a glyph and the string id of what it stands for,
/// ordered from the hunter outward, people before things.
pub open spec fn legend_rows() -> Seq<(char, Seq<char>)> {
    seq![
        ('@', "ui.legend.hunter"@),
        ('W', "ui.legend.villain"@),
        ('t', "ui.legend.enemy"@),
        ('P', "ui.legend.villager"@),
        ('?', "ui.legend.opportunity"@),
        ('n', "ui.legend.grave"@),
        ('=', "ui.legend.workstation"@),
        ('A', "ui.legend.altar"@),
        ('^', "ui.legend.snare"@),
        ('>', "ui.legend.exit"@),
    ]
}

/// The key to the map's glyphs. A fixed vocabulary drawn from the string
/// table, so a player who cannot lean on colour can still read what each
/// character is.
pub fn map_legend(strings: &StringTable) -> (r: Vec<LegendEntry>)
    ensures
        r@.len() == legend_rows().len(),
        forall|i: int|
            0 <= i < r@.len() ==> (#[trigger] r@[i]).glyph == legend_rows()[i].0 && r@[i].meaning@ == strings.resolve(
                legend_rows()[i].1,
            ),
{
    let mut out: Vec<LegendEntry> = Vec::new();
    out.push(LegendEntry { glyph: '@', meaning: text_owned(strings.ui("ui.legend.hunter")) });
    out.push(LegendEntry { glyph: 'W', meaning: text_owned(strings.ui("ui.legend.villain")) });
    out.push(LegendEntry { glyph: 't', meaning: text_owned(strings.ui("ui.legend.enemy")) });
    out.push(LegendEntry { glyph: 'P', meaning: text_owned(strings.ui("ui.legend.villager")) });
    out.push(LegendEntry { glyph: '?', meaning: text_owned(strings.ui("ui.legend.opportunity")) });
    out.push(LegendEntry { glyph: 'n', meaning: text_owned(strings.ui("ui.legend.grave")) });
    out.push(LegendEntry { glyph: '=', meaning: text_owned(strings.ui("ui.legend.workstation")) });
    out.push(LegendEntry { glyph: 'A', meaning: text_owned(strings.ui("ui.legend.altar")) });
    out.push(LegendEntry { glyph: '^', meaning: text_owned(strings.ui("ui.legend.snare")) });
    out.push(LegendEntry { glyph: '>', meaning: text_owned(strings.ui("ui.legend.exit")) });
    out
}

/// The string id of a short, non-colour tag for a log line's kind, so the
/// eight event colours are not the only thing telling a player what a line
/// is about.
pub open spec fn spec_event_kind_label(kind: EventKind) -> Seq<char> {
    match kind {
        EventKind::Combat => "ui.log.kind.combat"@,
        EventKind::Telegraph => "ui.log.kind.telegraph"@,
        EventKind::Clue => "ui.log.kind.clue"@,
        EventKind::Clock => "ui.log.kind.clock"@,
        EventKind::Social => "ui.log.kind.social"@,
        EventKind::Item => "ui.log.kind.item"@,
        EventKind::Travel => "ui.log.kind.travel"@,
        EventKind::System => "ui.log.kind.system"@,
    }
}

pub fn event_kind_label(kind: EventKind) -> (r: &'static str)
    ensures
        r@ == spec_event_kind_label(kind),
{
    match kind {
        EventKind::Combat => "ui.log.kind.combat",
        EventKind::Telegraph => "ui.log.kind.telegraph",
        EventKind::Clue => "ui.log.kind.clue",
        EventKind::Clock => "ui.log.kind.clock",
        EventKind::Social => "ui.log.kind.social",
        EventKind::Item => "ui.log.kind.item",
        EventKind::Travel => "ui.log.kind.travel",
        EventKind::System => "ui.log.kind.system",
    }
}

/// A run view with nothing on it: every cell unseen and blank, every line
/// and list empty.
pub fn empty_run_view() -> (r: RunView)
    ensures
        r.cells@.len() == MAP_WIDTH * MAP_HEIGHT,
        forall|i: int| 0 <= i < r.cells@.len() ==> #[trigger] r.cells@[i] == (Cell { glyph: ' ', color: CellColor::Unseen }),
        r.header@.len() == 0 && r.clock_line@.len() == 0 && r.health_line@.len() == 0,
        r.pools_line@.len() == 0 && r.stamina_line@.len() == 0,
        r.inventory@.len() == 0 && r.in_sight@.len() == 0 && r.actions@.len() == 0,
        r.log_tail@.len() == 0 && r.legend@.len() == 0,
        r.hint is None && r.cursor is None && !r.looking && r.inspect is None && r.overlay is None,
{
    let mut cells: Vec<Cell> = Vec::new();
    let total: usize = (MAP_WIDTH * MAP_HEIGHT) as usize;
    while cells.len() < total
        invariant
            cells@.len() <= total,
            total == MAP_WIDTH * MAP_HEIGHT,
            forall|i: int| 0 <= i < cells@.len() ==> #[trigger] cells@[i] == (Cell { glyph: ' ', color: CellColor::Unseen }),
        decreases total - cells@.len(),
    {
        cells.push(Cell { glyph: ' ', color: CellColor::Unseen });
    }
    RunView {
        cells,
        header: String::new(),
        clock_line: String::new(),
        health_line: String::new(),
        pools_line: String::new(),
        stamina_line: String::new(),
        inventory: Vec::new(),
        in_sight: Vec::new(),
        hint: None,
        actions: Vec::new(),
        log_tail: Vec::new(),
        cursor: None,
        looking: false,
        inspect: None,
        legend: Vec::new(),
        overlay: None,
    }
}

/// The index of the first feature of `fs` standing at `p`.
pub open spec fn first_feature_at(fs: Seq<FeatureSpec>, p: Point, i: int) -> bool {
    &&& 0 <= i < fs.len()
    &&& fs[i].at == p
    &&& forall|m: int| 0 <= m < i ==> (#[trigger] fs[m]).at != p
}

/// The index of the first NPC present at `p` on `map`.
pub open spec fn first_npc_at(specs: Seq<NpcSpec>, npcs: Seq<NpcState>, map: MapId, p: Point, k: int) -> bool {
    &&& 0 <= k < npc_count(specs, npcs)
    &&& npc_here(specs[k], npcs[k], map, p)
    &&& forall|m: int| 0 <= m < k ==> !npc_here(#[trigger] specs[m], npcs[m], map, p)
}

/// The index of the first living actor at `p` on `map`.
pub open spec fn first_actor_at(actors: Seq<Actor>, map: MapId, p: Point, k: int) -> bool {
    &&& 0 <= k < actors.len()
    &&& living_at(actors[k], map, p)
    &&& forall|m: int| 0 <= m < k ==> !living_at(#[trigger] actors[m], map, p)
}

/// A discovered lead anchored at `p` on `map` waits there, neither resolved
/// nor lost.
pub open spec fn lead_at(sim: &Sim, map: MapId, p: Point) -> bool {
    exists|k: int|
        0 <= k < sim.world.opportunities@.len() && {
            let o = #[trigger] sim.world.opportunities@[k];
            &&& o.map == map
            &&& sim.state.discovered@.contains(o.id)
            &&& !sim.state.resolved@.contains(o.id)
            &&& !sim.state.lost@.contains(o.id)
            &&& o.anchor == OpportunityAnchor::Tile(p)
        }
}

/// How a feature draws over `under`: an opened grave as an emptied pit, a
/// landmark as the ground beneath it; dimmed when out of sight or spent.
pub open spec fn feature_cell(sim: &Sim, f: FeatureSpec, under: Cell, visible: bool) -> Cell {
    let opened = f.kind is Grave && sim.state.opened_graves@.contains(f.id);
    Cell {
        glyph: match f.kind {
            FeatureKind::Altar => 'A',
            FeatureKind::Workstation => '=',
            FeatureKind::Grave { .. } => if opened {
                'u'
            } else {
                'n'
            },
            FeatureKind::Landmark => under.glyph,
        },
        color: if !visible || opened {
            CellColor::TerrainDim
        } else {
            CellColor::Feature
        },
    }
}

/// How an actor draws: an enemy by its kind's glyph ('e' for a kind the
/// catalogue lacks), the villain by its own, brighter while woundable.
pub open spec fn actor_cell(sim: &Sim, a: Actor) -> Cell {
    match a.kind {
        ActorKind::Enemy(e) => Cell {
            glyph: match sim.catalogue.enemies.lookup(e@) {
                Some(def) => def.glyph,
                None => 'e',
            },
            color: CellColor::Enemy,
        },
        ActorKind::Villain => Cell {
            glyph: sim.spec_villain().glyph,
            color: if sim.spec_vulnerable(a.id) {
                CellColor::VillainVulnerable
            } else {
                CellColor::Villain
            },
        },
    }
}

/// The tile at `p` on the current map, before the villain's marker: the
/// remembered terrain, then exits, features, leads and snares over it, then
/// what is in sight there, then the hunter.
pub open spec fn spec_cell(sim: &Sim, p: Point) -> Cell {
    let map = sim.state.current_map;
    let m = sim.world.maps@[map.0 as int];
    let i = tile_index(p);
    if !sim.state.seen@[map.0 as int]@[i] {
        Cell { glyph: ' ', color: CellColor::Unseen }
    } else {
        let visible = sim.state.visible@[i];
        let t = state_terrain(sim.state.terrain_overrides@, sim.world, map, p);
        let c0 = Cell {
            glyph: spec_terrain_glyph(t),
            color: if visible {
                CellColor::Terrain
            } else {
                CellColor::TerrainDim
            },
        };
        let c1 = if exists|k: int| 0 <= k < m.exits@.len() && (#[trigger] m.exits@[k]).at == p {
            Cell { glyph: '>', color: CellColor::Exit }
        } else {
            c0
        };
        let c2 = if exists|k: int| first_feature_at(m.features@, p, k) {
            feature_cell(sim, m.features@[choose|k: int| first_feature_at(m.features@, p, k)], c1, visible)
        } else {
            c1
        };
        let c3 = if lead_at(sim, map, p) {
            Cell { glyph: '?', color: CellColor::Opportunity }
        } else {
            c2
        };
        let c4 = if exists|k: int|
            0 <= k < sim.state.snares@.len() && (#[trigger] sim.state.snares@[k]).map == map && sim.state.snares@[k].at
                == p {
            Cell { glyph: '^', color: CellColor::Snare }
        } else {
            c3
        };
        let c5 = if visible && exists|k: int| first_npc_at(sim.world.npcs@, sim.state.npcs@, map, p, k) {
            let k = choose|k: int| first_npc_at(sim.world.npcs@, sim.state.npcs@, map, p, k);
            Cell { glyph: sim.world.npcs@[sim.world.npcs@[k].id.0 as int].glyph, color: CellColor::Npc }
        } else {
            c4
        };
        let c6 = if visible && exists|k: int| first_actor_at(sim.state.actors@, map, p, k) {
            actor_cell(sim, sim.state.actors@[choose|k: int| first_actor_at(sim.state.actors@, map, p, k)])
        } else {
            c5
        };
        if p == sim.state.hunter.pos {
            Cell { glyph: sim.catalogue.hunter.glyph, color: CellColor::Hunter }
        } else {
            c6
        }
    }
}

/// The grid the map panel draws: every tile as `spec_cell` has it, and, once
/// the villain's lair is known but the villain is not abroad, a marker on
/// the lair unless the hunter stands there.
pub open spec fn spec_cells(sim: &Sim) -> Seq<Cell> {
    let grid = Seq::new(640, |i: int| spec_cell(sim, grid_point(i)));
    let (lair_map, at) = sim.world.villain.lair;
    if sim.state.villain_location_known && !sim.state.villain.active && lair_map == sim.state.current_map
        && grid[tile_index(at)].color != CellColor::Hunter {
        grid.update(tile_index(at), Cell { glyph: '!', color: CellColor::Villain })
    } else {
        grid
    }
}

/// What drawing the grid reads is there to read.
pub open spec fn cells_readable(sim: &Sim) -> bool {
    let map = sim.state.current_map;
    &&& (map.0 as int) < sim.world.maps@.len()
    &&& (map.0 as int) < sim.state.seen@.len()
    &&& sim.state.seen@[map.0 as int]@.len() >= 640
    &&& sim.state.visible@.len() >= 640
    &&& forall|i: int|
        0 <= i < 640 && #[trigger] sim.state.seen@[map.0 as int]@[i] ==> terrain_readable(
            sim.state.terrain_overrides@,
            sim.world,
            map,
            grid_point(i),
        )
    &&& forall|k: int|
        0 <= k < npc_count(sim.world.npcs@, sim.state.npcs@) ==> ((#[trigger] sim.world.npcs@[k]).id.0 as int)
            < sim.world.npcs@.len()
    &&& forall|k: int|
        0 <= k < sim.state.actors@.len() && (#[trigger] sim.state.actors@[k]).kind is Villain ==> sim.has_villain_def()
            && sim.vulnerability_readable(sim.state.actors@[k].id)
    &&& sim.state.villain_location_known && !sim.state.villain.active && sim.world.villain.lair.0 == map ==> {
        let at = sim.world.villain.lair.1;
        &&& i16::MIN <= at.y * MAP_WIDTH <= i16::MAX
        &&& 0 <= at.y * MAP_WIDTH + at.x < 640
    }
}

pub(crate) fn opportunity_listed(list: &Vec<OpportunityId>, id: OpportunityId) -> (r: bool)
    ensures
        r == list@.contains(id),
{
    let mut k: usize = 0;
    while k < list.len()
        invariant
            k <= list@.len(),
            forall|m: int| 0 <= m < k ==> list@[m] != id,
        decreases list@.len() - k,
    {
        if list[k] == id {
            proof {
                assert(list@[k as int] == id);
            }
            return true;
        }
        k = k + 1;
    }
    false
}

pub(crate) fn feature_listed(list: &Vec<FeatureId>, id: FeatureId) -> (r: bool)
    ensures
        r == list@.contains(id),
{
    let mut k: usize = 0;
    while k < list.len()
        invariant
            k <= list@.len(),
            forall|m: int| 0 <= m < k ==> list@[m] != id,
        decreases list@.len() - k,
    {
        if list[k] == id {
            proof {
                assert(list@[k as int] == id);
            }
            return true;
        }
        k = k + 1;
    }
    false
}

fn exit_here(exits: &Vec<ExitSpec>, p: Point) -> (r: bool)
    ensures
        r == exists|k: int| 0 <= k < exits@.len() && (#[trigger] exits@[k]).at == p,
{
    let mut k: usize = 0;
    while k < exits.len()
        invariant
            k <= exits@.len(),
            forall|m: int| 0 <= m < k ==> (#[trigger] exits@[m]).at != p,
        decreases exits@.len() - k,
    {
        if exits[k].at == p {
            return true;
        }
        k = k + 1;
    }
    false
}

pub(crate) fn snare_here(snares: &Vec<Snare>, map: MapId, p: Point) -> (r: bool)
    ensures
        r == exists|k: int| 0 <= k < snares@.len() && (#[trigger] snares@[k]).map == map && snares@[k].at == p,
{
    let mut k: usize = 0;
    while k < snares.len()
        invariant
            k <= snares@.len(),
            forall|m: int| 0 <= m < k ==> !((#[trigger] snares@[m]).map == map && snares@[m].at == p),
        decreases snares@.len() - k,
    {
        if snares[k].map == map && snares[k].at == p {
            return true;
        }
        k = k + 1;
    }
    false
}

fn lead_here(sim: &Sim, map: MapId, p: Point) -> (r: bool)
    ensures
        r == lead_at(sim, map, p),
{
    let opps = &sim.world.opportunities;
    let mut k: usize = 0;
    while k < opps.len()
        invariant
            k <= opps@.len(),
            *opps == sim.world.opportunities,
            forall|m: int|
                0 <= m < k ==> {
                    let o = #[trigger] opps@[m];
                    !(o.map == map && sim.state.discovered@.contains(o.id) && !sim.state.resolved@.contains(o.id)
                        && !sim.state.lost@.contains(o.id) && o.anchor == OpportunityAnchor::Tile(p))
                },
        decreases opps@.len() - k,
    {
        let o = &opps[k];
        let at_tile = match o.anchor {
            OpportunityAnchor::Tile(at) => at == p,
            OpportunityAnchor::Npc(_) => false,
        };
        if o.map == map && at_tile && opportunity_listed(&sim.state.discovered, o.id) && !opportunity_listed(
            &sim.state.resolved,
            o.id,
        ) && !opportunity_listed(&sim.state.lost, o.id) {
            proof {
                let oo = opps@[k as int];
                assert(oo.map == map && sim.state.discovered@.contains(oo.id) && !sim.state.resolved@.contains(oo.id)
                    && !sim.state.lost@.contains(oo.id) && oo.anchor == OpportunityAnchor::Tile(p));
            }
            return true;
        }
        k = k + 1;
    }
    false
}

/// The cell an actor in sight draws as.
fn actor_glyph(sim: &Sim, a: &Actor) -> (c: Cell)
    requires
        a.kind is Villain ==> sim.has_villain_def() && sim.vulnerability_readable(a.id),
    ensures
        c == actor_cell(sim, *a),
{
    match &a.kind {
        ActorKind::Enemy(e) => {
            let glyph = match sim.catalogue.enemies.get(e.as_str()) {
                Some(def) => def.glyph,
                None => 'e',
            };
            Cell { glyph, color: CellColor::Enemy }
        },
        ActorKind::Villain => {
            let glyph = sim.villain_def().glyph;
            let color = if sim.villain_is_vulnerable(a.id) {
                CellColor::VillainVulnerable
            } else {
                CellColor::Villain
            };
            Cell { glyph, color }
        },
    }
}

/// The cell for the tile at index `i` of the current map.
fn cell_at(sim: &Sim, p: Point, i: usize) -> (c: Cell)
    requires
        cells_readable(sim),
        i < 640,
        p == grid_point(i as int),
    ensures
        c == spec_cell(sim, p),
{
    let map = sim.state.current_map;
    assert(tile_index(p) == i);
    assert(spec_in_bounds(p));
    if !sim.state.is_seen(map, p) {
        return Cell { glyph: ' ', color: CellColor::Unseen };
    }
    let visible = sim.state.is_visible(p);
    let terrain = sim.state.terrain(&sim.world, map, p);
    let mut cell = Cell {
        glyph: terrain_glyph(terrain),
        color: if visible {
            CellColor::Terrain
        } else {
            CellColor::TerrainDim
        },
    };
    let wm = sim.world.map(map);
    if exit_here(&wm.exits, p) {
        cell = Cell { glyph: '>', color: CellColor::Exit };
    }
    let ghost fs = wm.features@;
    match wm.feature_at(p) {
        Some(f) => {
            proof {
                let k = choose|k: int| first_feature(fs, |g: FeatureSpec| g.at == p, k) && *f == fs[k];
                assert(first_feature_at(fs, p, k));
                assert forall|j: int| first_feature_at(fs, p, j) implies j == k by {
                    if j < k {
                        assert(fs[j].at != p);
                    } else if j > k {
                        assert(fs[k].at != p);
                    }
                }
            }
            let opened = match f.kind {
                FeatureKind::Grave { .. } => feature_listed(&sim.state.opened_graves, f.id),
                _ => false,
            };
            let glyph = match f.kind {
                FeatureKind::Altar => 'A',
                FeatureKind::Workstation => '=',
                FeatureKind::Grave { .. } => if opened {
                    'u'
                } else {
                    'n'
                },
                FeatureKind::Landmark => cell.glyph,
            };
            cell = Cell {
                glyph,
                color: if !visible || opened {
                    CellColor::TerrainDim
                } else {
                    CellColor::Feature
                },
            };
        },
        None => {
            proof {
                assert(!exists|k: int| first_feature_at(fs, p, k));
            }
        },
    }
    if lead_here(sim, map, p) {
        cell = Cell { glyph: '?', color: CellColor::Opportunity };
    }
    if snare_here(&sim.state.snares, map, p) {
        cell = Cell { glyph: '^', color: CellColor::Snare };
    }
    if visible {
        match sim.state.npc_at(&sim.world, map, p) {
            Some(id) => {
                proof {
                    let k = choose|k: int|
                        0 <= k < npc_count(sim.world.npcs@, sim.state.npcs@) && id == sim.world.npcs@[k].id
                            && npc_here(sim.world.npcs@[k], sim.state.npcs@[k], map, p) && forall|m: int|
                            0 <= m < k ==> !npc_here(#[trigger] sim.world.npcs@[m], sim.state.npcs@[m], map, p);
                    assert(first_npc_at(sim.world.npcs@, sim.state.npcs@, map, p, k));
                    assert forall|j: int| first_npc_at(sim.world.npcs@, sim.state.npcs@, map, p, j) implies j == k by {
                        if j < k {
                            assert(!npc_here(sim.world.npcs@[j], sim.state.npcs@[j], map, p));
                        } else if j > k {
                            assert(!npc_here(sim.world.npcs@[k], sim.state.npcs@[k], map, p));
                        }
                    }
                }
                let spec = sim.world.npc(id);
                cell = Cell { glyph: spec.glyph, color: CellColor::Npc };
            },
            None => {},
        }
        match sim.state.actor_at(map, p) {
            Some(a) => {
                proof {
                    let k = choose|k: int|
                        0 <= k < sim.state.actors@.len() && *a == sim.state.actors@[k] && living_at(*a, map, p) && forall|m: int|
                            0 <= m < k ==> !living_at(#[trigger] sim.state.actors@[m], map, p);
                    assert(first_actor_at(sim.state.actors@, map, p, k));
                    assert forall|j: int| first_actor_at(sim.state.actors@, map, p, j) implies j == k by {
                        if j < k {
                            assert(!living_at(sim.state.actors@[j], map, p));
                        } else if j > k {
                            assert(!living_at(sim.state.actors@[k], map, p));
                        }
                    }
                }
                cell = actor_glyph(sim, a);
            },
            None => {},
        }
    }
    if p == sim.state.hunter.pos {
        cell = Cell { glyph: sim.catalogue.hunter.glyph, color: CellColor::Hunter };
    }
    cell
}

/// The map panel's grid for the current map, row-major, 32 by 20.
pub fn run_cells(sim: &Sim) -> (r: Vec<Cell>)
    requires
        cells_readable(sim),
    ensures
        r@ == spec_cells(sim),
{
    let mut cells: Vec<Cell> = Vec::new();
    let mut i: usize = 0;
    while i < 640
        invariant
            i <= 640,
            cells_readable(sim),
            cells@ == Seq::new(i as nat, |j: int| spec_cell(sim, grid_point(j))),
        decreases 640 - i,
    {
        let point = Point::new((i % 32) as i16, (i / 32) as i16);
        let cell = cell_at(sim, point, i);
        cells.push(cell);
        i = i + 1;
        proof {
            assert(cells@ =~= Seq::new(i as nat, |j: int| spec_cell(sim, grid_point(j))));
        }
    }
    if sim.state.villain_location_known && !sim.state.villain.active {
        let (marker_map, at) = sim.world.villain.lair;
        if marker_map == sim.state.current_map {
            let index = (at.y * MAP_WIDTH + at.x) as usize;
            if cells[index].color != CellColor::Hunter {
                cells.set(index, Cell { glyph: '!', color: CellColor::Villain });
            }
        }
    }
    cells
}

} // verus!
