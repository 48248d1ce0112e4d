//! The generated world: static output of the graph-first generator.
//!
//! Everything here is fixed once generation succeeds; the mutable run lives
//! in [`crate::state`]. The simulation interprets it against the content
//! catalogue.
use vstd::prelude::*;

use crate::geometry::{spec_in_bounds, Point, MAP_WIDTH};
use crate::schema::{MapRole, PoolKind, Terrain};

verus! {

#[derive(Debug, Clone, Copy, PartialEq, Eq, Structural)]
pub struct MapId(pub u8);

#[derive(Debug, Clone, Copy, PartialEq, Eq, Structural)]
pub struct NpcId(pub u8);

#[derive(Debug, Clone, Copy, PartialEq, Eq, Structural)]
pub struct OpportunityId(pub u16);

#[derive(Debug, Clone, Copy, PartialEq, Eq, Structural)]
pub struct FeatureId(pub u16);

#[derive(Debug, Clone)]
pub struct World {
    pub seed: u64,
    pub villain: VillainSpec,
    /// Indexed by `MapId`. Settlement is always map 0 and the starting map.
    pub maps: Vec<WorldMap>,
    pub npcs: Vec<NpcSpec>,
    pub opportunities: Vec<OpportunitySpec>,
    /// Seed-defined ambush chance on the wilderness/outlying route, percent.
    pub ambush_percent: u8,
    /// Solver-certified routes, kept for the inspector and the case report.
    pub certified_routes: Vec<CertifiedRoute>,
}

/// The index of the first map of `role`, if any.
pub open spec fn first_of_role(maps: Seq<WorldMap>, role: MapRole, i: int) -> bool {
    &&& 0 <= i < maps.len()
    &&& maps[i].role == role
    &&& forall|m: int| 0 <= m < i ==> (#[trigger] maps[m]).role != role
}

impl World {
    pub fn map(&self, id: MapId) -> (r: &WorldMap)
        requires
            (id.0 as int) < self.maps@.len(),
        ensures
            *r == self.maps@[id.0 as int],
    {
        &self.maps[id.0 as usize]
    }

    pub fn npc(&self, id: NpcId) -> (r: &NpcSpec)
        requires
            (id.0 as int) < self.npcs@.len(),
        ensures
            *r == self.npcs@[id.0 as int],
    {
        &self.npcs[id.0 as usize]
    }

    pub fn opportunity(&self, id: OpportunityId) -> (r: &OpportunitySpec)
        requires
            (id.0 as int) < self.opportunities@.len(),
        ensures
            *r == self.opportunities@[id.0 as int],
    {
        &self.opportunities[id.0 as usize]
    }

    /// The first map of `role`; map 0 when no map has it. The index is kept
    /// in a byte, as map ids are.
    pub fn map_by_role(&self, role: MapRole) -> (r: MapId)
        ensures
            forall|i: int| first_of_role(self.maps@, role, i) ==> r.0 == (i as u8),
            (forall|i: int| 0 <= i < self.maps@.len() ==> (#[trigger] self.maps@[i]).role != role) ==> r.0 == 0,
            self.maps@.len() > 0 ==> (r.0 as int) < self.maps@.len(),
    {
        let mut k: usize = 0;
        while k < self.maps.len()
            invariant
                k <= self.maps.len(),
                forall|m: int| 0 <= m < k ==> (#[trigger] self.maps@[m]).role != role,
            decreases self.maps.len() - k,
        {
            if self.maps[k].role == role {
                proof {
                    assert forall|i: int| first_of_role(self.maps@, role, i) implies i == k by {
                        if i < k {
                            assert(self.maps@[i].role != role);
                        } else if i > k {
                            assert(self.maps@[k as int].role == role);
                        }
                    }
                }
                #[verifier::truncate]
                let index = k as u8;
                proof {
                    lemma_byte_below(k);
                }
                return MapId(index);
            }
            k = k + 1;
        }
        MapId(0)
    }
}

/// A byte cut from an index is no larger than the index.
proof fn lemma_byte_below(i: usize)
    ensures
        (i as u8) as usize <= i,
{
    assert((i as u8) as usize <= i) by (bit_vector);
}

#[derive(Debug)]
pub struct VillainSpec {
    /// Villain archetype id in the content catalogue ("werewolf", "revenant").
    pub archetype: String,
    pub origin: String,
    pub scheme: String,
    /// Flavour name for the case report ("the thing that was Wat Snare").
    pub title: String,
    /// The NPC secretly hosting the villain (werewolf concealment).
    pub host: Option<NpcId>,
    /// The grave feature holding the dormant villain (revenant concealment).
    pub grave: Option<(MapId, FeatureId)>,
    /// Where the villain retreats between hunts; final-hunt spawn bias.
    pub lair: (MapId, Point),
}

impl Clone for VillainSpec {
    fn clone(&self) -> Self {
        VillainSpec {
            archetype: self.archetype.clone(),
            origin: self.origin.clone(),
            scheme: self.scheme.clone(),
            title: self.title.clone(),
            host: self.host,
            grave: match self.grave {
                Some((map, feature)) => Some((map, feature)),
                None => None,
            },
            lair: (self.lair.0, self.lair.1),
        }
    }
}

#[derive(Debug, Clone)]
pub struct WorldMap {
    /// Content template id ("settlement", "wilderness", "outlying").
    pub template: String,
    pub name: String,
    pub role: MapRole,
    /// Row-major 32x20 terrain grid.
    pub tiles: Vec<Terrain>,
    pub exits: Vec<ExitSpec>,
    pub features: Vec<FeatureSpec>,
    /// Tiles that become warded when the church is consecrated.
    pub consecration_area: Vec<Point>,
    /// Where the hunter appears when arriving without a paired exit
    /// (run start, respawn).
    pub entry: Point,
    /// Baseline enemies present from the start of the run.
    pub initial_enemies: Vec<EnemySpawn>,
}

/// Where an in-bounds point lives in the row-major grid.
pub open spec fn tile_index(at: Point) -> int {
    at.y * MAP_WIDTH + at.x
}

/// The first feature satisfying `found` is at index `i`.
pub open spec fn first_feature(features: Seq<FeatureSpec>, found: spec_fn(FeatureSpec) -> bool, i: int) -> bool {
    &&& 0 <= i < features.len()
    &&& found(features[i])
    &&& forall|m: int| 0 <= m < i ==> !found(#[trigger] features[m])
}

impl WorldMap {
    /// The terrain at `at`; everything off the map reads as wall.
    pub open spec fn spec_terrain(&self, at: Point) -> Terrain {
        if spec_in_bounds(at) {
            self.tiles@[tile_index(at)]
        } else {
            Terrain::Wall
        }
    }

    pub fn terrain(&self, at: Point) -> (r: Terrain)
        requires
            spec_in_bounds(at) ==> tile_index(at) < self.tiles@.len(),
        ensures
            r == self.spec_terrain(at),
    {
        if at.in_bounds() {
            self.tiles[at.y as usize * MAP_WIDTH as usize + at.x as usize]
        } else {
            Terrain::Wall
        }
    }

    /// Change the terrain at `at`; points off the map are left alone.
    pub fn set_terrain(&mut self, at: Point, terrain: Terrain)
        requires
            spec_in_bounds(at) ==> tile_index(at) < old(self).tiles@.len(),
        ensures
            final(self).tiles@ == if spec_in_bounds(at) {
                old(self).tiles@.update(tile_index(at), terrain)
            } else {
                old(self).tiles@
            },
            final(self).template == old(self).template,
            final(self).name == old(self).name,
            final(self).role == old(self).role,
            final(self).exits == old(self).exits,
            final(self).features == old(self).features,
            final(self).consecration_area == old(self).consecration_area,
            final(self).entry == old(self).entry,
            final(self).initial_enemies == old(self).initial_enemies,
    {
        if at.in_bounds() {
            let index = at.y as usize * MAP_WIDTH as usize + at.x as usize;
            self.tiles.set(index, terrain);
        }
    }

    /// The first feature standing at `at`.
    pub fn feature_at(&self, at: Point) -> (r: Option<&FeatureSpec>)
        ensures
            r is None <==> forall|i: int| 0 <= i < self.features@.len() ==> (#[trigger] self.features@[i]).at != at,
            r matches Some(f) ==> exists|i: int|
                first_feature(self.features@, |g: FeatureSpec| g.at == at, i) && *f == self.features@[i],
    {
        let mut k: usize = 0;
        while k < self.features.len()
            invariant
                k <= self.features.len(),
                forall|m: int| 0 <= m < k ==> (#[trigger] self.features@[m]).at != at,
            decreases self.features.len() - k,
        {
            if self.features[k].at == at {
                proof {
                    assert(first_feature(self.features@, |g: FeatureSpec| g.at == at, k as int));
                }
                return Some(&self.features[k]);
            }
            k = k + 1;
        }
        None
    }

    /// The first feature with id `id`.
    pub fn feature(&self, id: FeatureId) -> (r: Option<&FeatureSpec>)
        ensures
            r is None <==> forall|i: int| 0 <= i < self.features@.len() ==> (#[trigger] self.features@[i]).id != id,
            r matches Some(f) ==> exists|i: int|
                first_feature(self.features@, |g: FeatureSpec| g.id == id, i) && *f == self.features@[i],
    {
        let mut k: usize = 0;
        while k < self.features.len()
            invariant
                k <= self.features.len(),
                forall|m: int| 0 <= m < k ==> (#[trigger] self.features@[m]).id != id,
            decreases self.features.len() - k,
        {
            if self.features[k].id == id {
                proof {
                    assert(first_feature(self.features@, |g: FeatureSpec| g.id == id, k as int));
                }
                return Some(&self.features[k]);
            }
            k = k + 1;
        }
        None
    }
}

/// A tile set on the map reads back as what was set there, and every other
/// tile reads as before.
pub proof fn lemma_terrain_reads_back_what_was_set(before: WorldMap, after: WorldMap, at: Point, terrain: Terrain, other: Point)
    requires
        spec_in_bounds(at),
        tile_index(at) < before.tiles@.len(),
        spec_in_bounds(other) ==> tile_index(other) < before.tiles@.len(),
        after.tiles@ == before.tiles@.update(tile_index(at), terrain),
    ensures
        after.spec_terrain(at) == terrain,
        other != at ==> after.spec_terrain(other) == before.spec_terrain(other),
{
    if other != at && spec_in_bounds(other) {
        assert(tile_index(other) != tile_index(at));
    }
}

#[derive(Debug, Clone)]
pub struct ExitSpec {
    pub at: Point,
    pub to_map: MapId,
    /// Arrival point on the destination map (its paired exit tile).
    pub to_point: Point,
    /// Whether using this exit rolls the seed-defined ambush chance.
    pub ambush_route: bool,
}

#[derive(Debug, Clone)]
pub struct FeatureSpec {
    pub id: FeatureId,
    pub at: Point,
    pub kind: FeatureKind,
    pub name: String,
}

#[derive(Debug, Clone, PartialEq, Eq, Structural)]
pub enum FeatureKind {
    Workstation,
    Altar,
    /// A named grave. `contents` is fixed at generation.
    Grave { contents: GraveContents },
    /// Landmark with no intrinsic interaction (den, stones, well, camp).
    Landmark,
}

#[derive(Debug, Clone, Copy, PartialEq, Eq, Structural)]
pub enum GraveContents {
    Empty,
    Mundane,
    /// The dormant villain rests here (revenant runs only).
    Villain,
}

#[derive(Debug, Clone)]
pub struct NpcSpec {
    pub id: NpcId,
    /// Archetype id in the content catalogue.
    pub archetype: String,
    pub name: String,
    pub glyph: char,
    pub disposition: Disposition,
    pub mystical: bool,
    /// Whether this NPC will trade ammunition for coin.
    pub trades: bool,
    pub secret: NpcSecret,
    /// Relationship links to other cast members.
    pub links: Vec<NpcLink>,
    /// Map and tile where the NPC works (routines orbit this point).
    pub map: MapId,
    pub work: Point,
}

#[derive(Debug, Clone, Copy, PartialEq, Eq, Structural)]
pub enum Disposition {
    Friendly,
    Wary,
    Hostile,
}

#[derive(Debug, Clone)]
pub struct NpcSecret {
    /// Secret template id.
    pub template: String,
    pub text: String,
    /// False secrets carry their reachable disproof text.
    pub disproof: Option<String>,
}

#[derive(Debug, Clone)]
pub struct NpcLink {
    pub to: NpcId,
    /// Relationship kind id.
    pub kind: String,
    pub discovered_text: String,
}

#[derive(Debug, Clone)]
pub struct EnemySpawn {
    /// Enemy id in the content catalogue.
    pub enemy: String,
    pub at: Point,
}

/// A generated, placed opportunity. Always visible once discovered; if its
/// pool is empty the UI explains the blocked action instead of hiding it.
#[derive(Debug, Clone)]
pub struct OpportunitySpec {
    pub id: OpportunityId,
    /// Clue template id, gather kind, or intrinsic kind for the inspector.
    pub source: String,
    pub name: String,
    pub map: MapId,
    pub anchor: OpportunityAnchor,
    /// Pool the action draws from; `None` means the action is free.
    pub pool: Option<PoolKind>,
    pub cost: u8,
    pub obscurity: u8,
    pub discovery: DiscoveryRule,
    pub grants: OpportunityGrant,
    pub prompt: String,
    pub reveal: String,
}

#[derive(Debug, Clone, Copy, PartialEq, Eq, Structural)]
pub enum OpportunityAnchor {
    /// Interact while standing on or adjacent to this tile.
    Tile(Point),
    /// Interact by talking to this NPC.
    Npc(NpcId),
}

#[derive(Debug, Clone, PartialEq, Eq, Structural)]
pub enum DiscoveryRule {
    /// Discovered when its tile (or NPC) first enters the hunter's sight.
    Sight,
    /// Only appears once another opportunity has been resolved.
    RevealedBy(OpportunityId),
    /// Discovered by sight, or revealed early by the referenced opportunity.
    SightOr(OpportunityId),
}

#[derive(Debug, Clone)]
pub enum OpportunityGrant {
    /// One of the two corroborating identity proofs.
    IdentityClue,
    /// Reveals the villain's lair/grave marker without naming it.
    LocationClue,
    /// Knowledge that unlocks other opportunities (weakness sources).
    Lead,
    /// Items granted directly.
    Items { items: Vec<String> },
    /// The mystical favour: one temporary over-cap Mystic point.
    MysticFavour,
    /// Learn an undiscovered relationship link of the anchored NPC.
    RelationshipInfo,
    /// Learn the anchored NPC's secret (spying route).
    SecretInfo,
    /// Expose the anchored NPC's secret: leverage that makes them cooperate.
    Leverage,
    /// Disproves the referenced NPC's false secret (anchored elsewhere).
    Disproof { npc: NpcId },
}

/// Solver-certified route, retained for the inspector and case report.
#[derive(Debug, Clone)]
pub struct CertifiedRoute {
    pub label: String,
    /// Global turn by which the route is hunt-ready.
    pub ready_by_turn: u8,
    pub viability_permille: u16,
    pub total_effort: u16,
    pub total_obscurity: u16,
    pub travel_legs: u8,
    pub uses_mystic_favour: bool,
    pub steps: Vec<RouteStep>,
}

#[derive(Debug, Clone)]
pub struct RouteStep {
    /// Global turn on which the step happens.
    pub turn: u8,
    pub description: String,
    /// Opportunity resolved by this step, if any.
    pub opportunity: Option<OpportunityId>,
}

/// The pair ordered by id, lower first.
pub open spec fn spec_link_key(a: NpcId, b: NpcId) -> (NpcId, NpcId) {
    if a.0 <= b.0 {
        (a, b)
    } else {
        (b, a)
    }
}

/// Normalised link key so `(a, b)` and `(b, a)` collide.
pub fn link_key(a: NpcId, b: NpcId) -> (r: (NpcId, NpcId))
    ensures
        r == spec_link_key(a, b),
{
    if a.0 <= b.0 {
        (a, b)
    } else {
        (b, a)
    }
}

/// A link key does not depend on which end it is asked from.
pub proof fn lemma_link_key_symmetric(a: NpcId, b: NpcId)
    ensures
        spec_link_key(a, b) == spec_link_key(b, a),
        spec_link_key(a, b).0.0 <= spec_link_key(a, b).1.0,
{
}

} // verus!
