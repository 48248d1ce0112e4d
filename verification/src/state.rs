//! Mutable run state: the hunter's resources and inventory, the actors on
//! the board, and the case's standing.
use vstd::prelude::*;

use crate::catalogue::Catalogue;
use crate::events::LogEvent;
use crate::geometry::{chebyshev, diff_fits, spec_in_bounds, Point, MAP_WIDTH};
use crate::keyed::KeyedMap;
use crate::schema::{MapRole, PoolKind, Terrain};
use crate::text::{text_owned, texts};
use crate::world::{first_of_role, tile_index, FeatureId, MapId, NpcId, NpcSpec, OpportunityId, World, WorldMap};

verus! {

#[derive(Debug, Clone, Copy, PartialEq, Eq, Structural)]
pub struct ActorId(pub u16);

#[derive(Debug, Clone)]
pub struct HunterState {
    pub pos: Point,
    pub hp: u16,
    pub max_hp: u16,
    pub lore: u8,
    pub social: u8,
    pub mystic: u8,
    /// Temporary over-cap Mystic from the mystical favour.
    pub mystic_bonus: u8,
    pub physical: u8,
    pub stamina: u8,
    /// Item id to how many are carried, in id order.
    pub inventory: KeyedMap<u16>,
    /// Next ranged attack always hits (Aim).
    pub sure_shot: bool,
    /// Pending melee multiplier numerator over 2 (3 = x1.5 from Power Attack).
    pub melee_multiplier: Option<u8>,
    pub favour_used: bool,
    /// Turns a called-in villager still stands with the hunter (the
    /// Confessor's second). While it lasts, her blows land harder and some of
    /// what comes back is taken by the one beside her.
    pub second_turns: u8,
    /// Extra melee damage the standing second adds each turn it is here.
    pub second_damage: u16,
}

/// `a - b`, floored at zero.
pub open spec fn floor_sub(a: int, b: int) -> int {
    if a >= b {
        a - b
    } else {
        0
    }
}

impl HunterState {
    /// Points available in a pool; Mystic counts the favour's over-cap point.
    pub open spec fn spec_pool(&self, kind: PoolKind) -> int {
        match kind {
            PoolKind::Lore => self.lore as int,
            PoolKind::Social => self.social as int,
            PoolKind::Mystic => self.mystic + self.mystic_bonus,
            PoolKind::Physical => self.physical as int,
        }
    }

    /// How many of `item` are carried.
    pub open spec fn spec_item_count(&self, item: Seq<char>) -> int {
        match self.inventory.lookup(item) {
            Some(n) => n as int,
            None => 0,
        }
    }

    /// Everything but the pools is as in `other`.
    pub open spec fn same_but_pools(&self, other: &HunterState) -> bool {
        &&& self.pos == other.pos
        &&& self.hp == other.hp
        &&& self.max_hp == other.max_hp
        &&& self.stamina == other.stamina
        &&& self.inventory == other.inventory
        &&& self.sure_shot == other.sure_shot
        &&& self.melee_multiplier == other.melee_multiplier
        &&& self.favour_used == other.favour_used
        &&& self.second_turns == other.second_turns
        &&& self.second_damage == other.second_damage
    }

    /// Everything but the inventory is as in `other`.
    pub open spec fn same_but_inventory(&self, other: &HunterState) -> bool {
        &&& self.pos == other.pos
        &&& self.hp == other.hp
        &&& self.max_hp == other.max_hp
        &&& self.lore == other.lore
        &&& self.social == other.social
        &&& self.mystic == other.mystic
        &&& self.mystic_bonus == other.mystic_bonus
        &&& self.physical == other.physical
        &&& self.stamina == other.stamina
        &&& self.sure_shot == other.sure_shot
        &&& self.melee_multiplier == other.melee_multiplier
        &&& self.favour_used == other.favour_used
        &&& self.second_turns == other.second_turns
        &&& self.second_damage == other.second_damage
    }

    /// `after` is `before` with `count` more of `item`.
    pub open spec fn added(before: &HunterState, after: &HunterState, item: Seq<char>, count: u16) -> bool {
        &&& after.same_but_inventory(before)
        &&& after.inventory.lookup(item) == Some((before.spec_item_count(item) + count) as u16)
        &&& forall|k: Seq<char>| k != item ==> #[trigger] after.inventory.lookup(k) == before.inventory.lookup(k)
    }

    /// `after` is what removing `count` of `item` from `before` leaves, and
    /// `done` whether enough were carried to remove them.
    pub open spec fn removed(before: &HunterState, after: &HunterState, item: Seq<char>, count: u16, done: bool) -> bool {
        &&& done == (before.inventory.contains(item) && before.spec_item_count(item) >= count)
        &&& after.same_but_inventory(before)
        &&& done ==> after.spec_item_count(item) == before.spec_item_count(item) - count
        &&& done ==> (after.inventory.contains(item) <==> before.spec_item_count(item) > count)
        &&& done ==> forall|k: Seq<char>| k != item ==> #[trigger] after.inventory.lookup(k) == before.inventory.lookup(k)
        &&& !done ==> after.inventory == before.inventory
    }

    pub fn pool(&self, kind: PoolKind) -> (r: u8)
        requires
            kind == PoolKind::Mystic ==> self.mystic + self.mystic_bonus <= u8::MAX,
        ensures
            r == self.spec_pool(kind),
    {
        match kind {
            PoolKind::Lore => self.lore,
            PoolKind::Social => self.social,
            PoolKind::Mystic => self.mystic + self.mystic_bonus,
            PoolKind::Physical => self.physical,
        }
    }

    /// Spend up to `amount` from a pool, stopping at empty. Mystic spends
    /// the favour's over-cap point first: it would otherwise be lost to the
    /// cap on the next refresh.
    pub fn spend_pool(&mut self, kind: PoolKind, amount: u8)
        ensures
            final(self).spec_pool(kind) == floor_sub(old(self).spec_pool(kind), amount as int),
            forall|other: PoolKind| other != kind ==> #[trigger] final(self).spec_pool(other) == old(self).spec_pool(other),
            kind != PoolKind::Mystic ==> final(self).mystic_bonus == old(self).mystic_bonus,
            kind == PoolKind::Mystic ==> final(self).mystic_bonus == old(self).mystic_bonus - (if amount
                < old(self).mystic_bonus {
                amount
            } else {
                old(self).mystic_bonus
            }),
            final(self).same_but_pools(&*old(self)),
    {
        match kind {
            PoolKind::Lore => {
                self.lore = self.lore.saturating_sub(amount);
            },
            PoolKind::Social => {
                self.social = self.social.saturating_sub(amount);
            },
            PoolKind::Mystic => {
                let from_bonus = if amount < self.mystic_bonus {
                    amount
                } else {
                    self.mystic_bonus
                };
                self.mystic_bonus = self.mystic_bonus - from_bonus;
                self.mystic = self.mystic.saturating_sub(amount - from_bonus);
            },
            PoolKind::Physical => {
                self.physical = self.physical.saturating_sub(amount);
            },
        }
    }

    pub fn item_count(&self, item: &str) -> (r: u16)
        ensures
            r == self.spec_item_count(item@),
    {
        match self.inventory.get(item) {
            Some(n) => *n,
            None => 0,
        }
    }

    /// Carry `count` more of `item`. An item added at zero is listed, with
    /// nothing carried.
    pub fn add_item(&mut self, item: &str, count: u16)
        requires
            old(self).spec_item_count(item@) + count <= u16::MAX,
        ensures
            HunterState::added(&*old(self), &*final(self), item@, count),
    {
        let have = self.item_count(item);
        self.inventory.insert(text_owned(item), have + count);
    }

    /// Remove `count` of `item`; returns false (unchanged) if short. An item
    /// whose count reaches zero leaves the inventory.
    pub fn remove_item(&mut self, item: &str, count: u16) -> (r: bool)
        ensures
            HunterState::removed(&*old(self), &*final(self), item@, count, r),
    {
        match self.inventory.get(item) {
            Some(have) => {
                let have = *have;
                if have >= count {
                    if have == count {
                        self.inventory.remove(item);
                    } else {
                        self.inventory.insert(text_owned(item), have - count);
                    }
                    true
                } else {
                    false
                }
            },
            None => false,
        }
    }
}

/// Adding items and then removing as many gives back the count carried
/// before, and the removal always succeeds.
pub proof fn lemma_remove_undoes_add(
    h0: HunterState,
    h1: HunterState,
    h2: HunterState,
    item: Seq<char>,
    count: u16,
    done: bool,
)
    requires
        h0.spec_item_count(item) + count <= u16::MAX,
        HunterState::added(&h0, &h1, item, count),
        HunterState::removed(&h1, &h2, item, count, done),
    ensures
        done,
        h2.spec_item_count(item) == h0.spec_item_count(item),
        forall|k: Seq<char>| k != item ==> #[trigger] h2.inventory.lookup(k) == h0.inventory.lookup(k),
{
    assert(h1.inventory.contains(item));
}

/// Spending from a pool takes exactly what it holds, up to the amount, and
/// never touches another pool.
pub proof fn lemma_spend_takes_at_most_what_is_held(h0: HunterState, h1: HunterState, kind: PoolKind, amount: u8)
    requires
        h1.spec_pool(kind) == floor_sub(h0.spec_pool(kind), amount as int),
        h0.spec_pool(kind) >= 0,
    ensures
        0 <= h1.spec_pool(kind) <= h0.spec_pool(kind),
        h0.spec_pool(kind) - h1.spec_pool(kind) == if h0.spec_pool(kind) >= amount {
            amount as int
        } else {
            h0.spec_pool(kind)
        },
{
}

#[derive(Debug, Clone)]
pub struct Actor {
    pub id: ActorId,
    pub kind: ActorKind,
    pub map: MapId,
    pub pos: Point,
    pub hp: u16,
    pub max_hp: u16,
    /// Has noticed the hunter and acts every tick.
    pub awake: bool,
    /// Encounter turns remaining held in a snare.
    pub trapped: u8,
    /// Turns until the pounce/dash is ready again.
    pub pounce_cooldown: u8,
    /// Pounce telegraphed last turn and will fire if the lane holds.
    pub pounce_primed: bool,
    pub dash_cooldown: u8,
    /// Position in the revenant vulnerability cadence.
    pub cadence: u8,
    /// Forced-vulnerability turns remaining (binding charm).
    pub bound: u8,
    /// Werewolf regeneration permanently stopped by silver.
    pub regen_stopped: bool,
    /// Hex-ward charges still standing (the Witch); 0 means the ward is down.
    pub ward_charges: u8,
    /// Encounter turns until a broken ward is rewoven.
    pub ward_reweave: u8,
    /// Shamblers move only when this is true; toggles every tick.
    pub slow_phase: bool,
    /// Dormant countdown: >0 means immobile in the grave; wakes when it
    /// reaches 0 or when attacked (which grants the coup-de-grace bonus).
    pub dormant: u8,
}

#[derive(Debug, Clone, PartialEq, Eq)]
pub enum ActorKind {
    /// Ordinary enemy; the string is the content enemy id.
    Enemy(String),
    Villain,
}

#[derive(Debug, Clone)]
pub struct NpcState {
    pub pos: Point,
    pub alive: bool,
    /// Fled after being attacked; no longer on the map.
    pub fled: bool,
    /// Attacked by the hunter (fallout applied).
    pub attacked: bool,
    /// Exposed secret leverage: treats disposition as friendly.
    pub leveraged: bool,
    pub hp: u16,
    /// Local turns until this NPC seeks out a linked NPC for a chat.
    pub chat_timer: u8,
    /// The link currently being walked to, as an index into spec links.
    pub chat_target: Option<u8>,
    /// Turns of chatting remaining once adjacent.
    pub chatting: u8,
}

#[derive(Debug, Clone)]
pub struct VillainRunState {
    /// Threat tier 0..=2; each scheme event raises it.
    pub tier: u8,
    /// The villain is materialised as an actor and hunting.
    pub active: bool,
    /// Actor id when active.
    pub actor: Option<ActorId>,
    /// Killed: run won.
    pub dead: bool,
}

#[derive(Debug, Clone)]
pub struct Snare {
    pub map: MapId,
    pub at: Point,
}

/// Ground the Occultist has marked. Unnatural things are torn at for
/// crossing it, which turns a corridor or doorway into a lane she owns.
#[derive(Debug, Clone)]
pub struct GroundWard {
    pub map: MapId,
    pub centre: Point,
    pub radius: u8,
    pub turns_left: u8,
}

impl GroundWard {
    pub fn covers(&self, map: MapId, at: Point) -> (r: bool)
        requires
            diff_fits(self.centre, at),
        ensures
            r == (self.map == map && chebyshev(self.centre, at) <= self.radius),
    {
        self.map == map && self.centre.distance(at) <= self.radius as i16
    }
}

#[derive(Debug, Clone, Copy, PartialEq, Eq, Structural)]
pub enum Outcome {
    /// The villain is destroyed.
    Victory,
    /// The hunter fell during the final hunt.
    Defeat,
}

/// The case's standing against the corroboration rule, in one place for the
/// sim's gate, the autoplayer, the clients, and the planner's goal: naming
/// the quarry demands `need` identity proofs of which at least one is
/// discriminating.
#[derive(Debug, Clone, Copy, PartialEq, Eq, Structural)]
pub struct Corroboration {
    /// Identity proofs held.
    pub have: u8,
    /// Proofs naming the quarry demands (authored tuning).
    pub need: u8,
    /// Whether any held proof rules an alternative out.
    pub decisive: bool,
}

impl Corroboration {
    pub open spec fn spec_corroborated(&self) -> bool {
        self.have >= self.need
    }

    pub open spec fn spec_met(&self) -> bool {
        self.spec_corroborated() && self.decisive
    }

    /// Whether the quarry can be named right now.
    pub fn met(&self) -> (r: bool)
        ensures
            r == self.spec_met(),
    {
        self.have >= self.need && self.decisive
    }

    /// Whether enough proofs are held, decisive or not: the corroborated but
    /// ambiguous state the UI narrates differently from "keep looking".
    pub fn corroborated(&self) -> (r: bool)
        ensures
            r == self.spec_corroborated(),
    {
        self.have >= self.need
    }
}

/// A quarry that can be named is always corroborated, and a corroborated
/// case names it exactly when some proof is decisive.
pub proof fn lemma_met_is_decisive_corroboration(c: Corroboration)
    ensures
        c.spec_met() ==> c.spec_corroborated(),
        c.spec_corroborated() ==> (c.spec_met() <==> c.decisive),
{
}

/// The two words of the run's random generator, carried through the run as
/// they stand; the draws themselves are made outside the rules.
#[derive(Debug, Clone, Copy, PartialEq, Eq, Structural)]
pub struct RngState {
    pub state: u64,
    pub inc: u64,
}

/// Terrain changed at runtime (a forced door, shifted rubble).
#[derive(Debug, Clone, Copy, PartialEq, Eq, Structural)]
pub struct TerrainOverride {
    pub map: MapId,
    pub at: Point,
    pub terrain: Terrain,
}

/// The mutable run: clock, actors, resources, discoveries and the log. The
/// sets of the run (discovered opportunities, met NPCs and the like) are
/// lists in the order their members joined.
#[derive(Debug, Clone)]
pub struct RunState {
    pub rng: RngState,
    /// Global travel turns spent (0-based; final hunt begins at travel_turns).
    pub clock: u8,
    pub final_hunt: bool,
    /// Times the hunter has fallen short of the final hunt.
    pub deaths: u8,
    /// Local encounter turn counter (increments after every hunter action).
    pub local_turn: u32,
    pub current_map: MapId,
    pub hunter: HunterState,
    pub actors: Vec<Actor>,
    /// The id the next spawned actor gets.
    pub next_actor_id: u16,
    pub npcs: Vec<NpcState>,
    pub villain: VillainRunState,
    /// Terrain changed at runtime; a lookup takes the first entry for a tile.
    pub terrain_overrides: Vec<TerrainOverride>,
    pub discovered: Vec<OpportunityId>,
    pub resolved: Vec<OpportunityId>,
    /// Opportunities lost to fallout (their NPC was attacked or killed).
    pub lost: Vec<OpportunityId>,
    pub identity_clues: Vec<OpportunityId>,
    /// Identity clues that positively eliminate an alternative villain.
    pub discriminating_identity: Vec<OpportunityId>,
    pub origin_identified: bool,
    pub scheme_identified: bool,
    pub scheme_preempted: bool,
    pub villain_uncovered: bool,
    pub villain_location_known: bool,
    pub met_npcs: Vec<NpcId>,
    pub known_links: Vec<(NpcId, NpcId)>,
    pub known_secrets: Vec<NpcId>,
    pub disproved_secrets: Vec<NpcId>,
    /// Per-map fog of war: tiles ever seen.
    pub seen: Vec<Vec<bool>>,
    /// Tiles currently visible on the current map.
    pub visible: Vec<bool>,
    pub church_consecrated: bool,
    pub settlement_hostile: bool,
    /// Tiles taken off the hunter's field of view by the run's condition.
    pub sight_penalty: u8,
    /// Tiles added to the hunter's field of view by the run's boon.
    pub sight_bonus: u8,
    /// Maps the hunter has set foot on, for first-arrival narration.
    pub arrived: Vec<MapId>,
    /// How far into each map's optional-event deck the run has drawn.
    pub event_cursor: Vec<u8>,
    pub opened_graves: Vec<FeatureId>,
    pub snares: Vec<Snare>,
    pub wards: Vec<GroundWard>,
    pub log: Vec<LogEvent>,
    pub outcome: Option<Outcome>,
}

/// The terrain the first override for `map` at `at`, from index `k` on,
/// sets there.
pub open spec fn override_from(ovs: Seq<TerrainOverride>, map: MapId, at: Point, k: int) -> Option<Terrain>
    decreases ovs.len() - k,
{
    if k < 0 || k >= ovs.len() {
        None
    } else if ovs[k].map == map && ovs[k].at == at {
        Some(ovs[k].terrain)
    } else {
        override_from(ovs, map, at, k + 1)
    }
}

/// The terrain at `at` on `map` as the run sees it: an override where there
/// is one, else the generated map.
pub open spec fn state_terrain(ovs: Seq<TerrainOverride>, world: World, map: MapId, at: Point) -> Terrain {
    match override_from(ovs, map, at, 0) {
        Some(t) => t,
        None => world.maps@[map.0 as int].spec_terrain(at),
    }
}

/// Reading the terrain at `at` touches nothing that is missing: either an
/// override answers, or the map and the tile exist.
pub open spec fn terrain_readable(ovs: Seq<TerrainOverride>, world: World, map: MapId, at: Point) -> bool {
    ||| override_from(ovs, map, at, 0) is Some
    ||| (map.0 as int) < world.maps@.len() && (spec_in_bounds(at) ==> tile_index(at) < world.maps@[map.0 as int].tiles@.len())
}

/// A living actor stands at `pos` on `map`.
pub open spec fn living_at(a: Actor, map: MapId, pos: Point) -> bool {
    a.map == map && a.pos == pos && a.hp > 0
}

/// No living actor stands at `pos` on `map`.
pub open spec fn no_actor_at(actors: Seq<Actor>, map: MapId, pos: Point) -> bool {
    forall|k: int| 0 <= k < actors.len() ==> !living_at(#[trigger] actors[k], map, pos)
}

/// The NPC described by `spec`, in run state `npc`, is present at `pos`.
pub open spec fn npc_here(spec: NpcSpec, npc: NpcState, map: MapId, pos: Point) -> bool {
    spec.map == map && npc.alive && !npc.fled && npc.pos == pos
}

/// How many NPCs the world and the run both describe.
pub open spec fn npc_count(specs: Seq<NpcSpec>, npcs: Seq<NpcState>) -> int {
    if specs.len() <= npcs.len() {
        specs.len() as int
    } else {
        npcs.len() as int
    }
}

/// No present NPC stands at `pos` on `map`.
pub open spec fn no_npc_at(specs: Seq<NpcSpec>, npcs: Seq<NpcState>, map: MapId, pos: Point) -> bool {
    forall|k: int| 0 <= k < npc_count(specs, npcs) ==> !npc_here(#[trigger] specs[k], npcs[k], map, pos)
}

impl RunState {
    /// Where the case stands against the corroboration rule.
    pub fn corroboration(&self, catalogue: &Catalogue) -> (r: Corroboration)
        ensures
            r.have == self.identity_clues@.len() as u8,
            r.need == catalogue.balance.case.corroborating_proofs,
            r.decisive == (self.discriminating_identity@.len() > 0),
    {
        #[verifier::truncate]
        let have = self.identity_clues.len() as u8;
        Corroboration {
            have,
            need: catalogue.balance.case.corroborating_proofs,
            decisive: self.discriminating_identity.len() != 0,
        }
    }

    /// Put a new actor on `map` at `pos`, awake to nothing yet, with `hp`
    /// both current and maximum.
    pub fn spawn_actor(&mut self, kind: ActorKind, map: MapId, pos: Point, hp: u16) -> (id: ActorId)
        requires
            old(self).next_actor_id < u16::MAX,
        ensures
            id.0 == old(self).next_actor_id,
            final(self).next_actor_id == old(self).next_actor_id + 1,
            final(self).actors@ == old(self).actors@.push(fresh_actor(id, kind, map, pos, hp)),
            final(self).same_but_actors(&*old(self)),
    {
        let id = ActorId(self.next_actor_id);
        self.next_actor_id = self.next_actor_id + 1;
        self.actors.push(
            Actor {
                id,
                kind,
                map,
                pos,
                hp,
                max_hp: hp,
                awake: false,
                trapped: 0,
                pounce_cooldown: 0,
                pounce_primed: false,
                dash_cooldown: 0,
                cadence: 0,
                bound: 0,
                regen_stopped: false,
                ward_charges: 0,
                ward_reweave: 0,
                slow_phase: false,
                dormant: 0,
            },
        );
        id
    }

    /// The first actor with id `id`.
    pub fn actor(&self, id: ActorId) -> (r: Option<&Actor>)
        ensures
            r is None <==> forall|k: int| 0 <= k < self.actors@.len() ==> (#[trigger] self.actors@[k]).id != id,
            r matches Some(a) ==> exists|k: int|
                0 <= k < self.actors@.len() && *a == self.actors@[k] && a.id == id && forall|m: int|
                    0 <= m < k ==> (#[trigger] self.actors@[m]).id != id,
    {
        let mut k: usize = 0;
        while k < self.actors.len()
            invariant
                k <= self.actors.len(),
                forall|m: int| 0 <= m < k ==> (#[trigger] self.actors@[m]).id != id,
            decreases self.actors.len() - k,
        {
            if self.actors[k].id == id {
                return Some(&self.actors[k]);
            }
            k = k + 1;
        }
        None
    }

    /// The first living actor standing at `pos` on `map`.
    pub fn actor_at(&self, map: MapId, pos: Point) -> (r: Option<&Actor>)
        ensures
            r is None <==> no_actor_at(self.actors@, map, pos),
            r matches Some(a) ==> exists|k: int|
                0 <= k < self.actors@.len() && *a == self.actors@[k] && living_at(*a, map, pos) && forall|m: int|
                    0 <= m < k ==> !living_at(#[trigger] self.actors@[m], map, pos),
    {
        let mut k: usize = 0;
        while k < self.actors.len()
            invariant
                k <= self.actors.len(),
                forall|m: int| 0 <= m < k ==> !living_at(#[trigger] self.actors@[m], map, pos),
            decreases self.actors.len() - k,
        {
            let a = &self.actors[k];
            if a.map == map && a.pos == pos && a.hp > 0 {
                return Some(a);
            }
            k = k + 1;
        }
        None
    }

    /// The first NPC present at `pos` on `map`, pairing the world's NPCs with
    /// the run's in order.
    pub fn npc_at(&self, world: &World, map: MapId, pos: Point) -> (r: Option<NpcId>)
        ensures
            r is None <==> no_npc_at(world.npcs@, self.npcs@, map, pos),
            r matches Some(id) ==> exists|k: int|
                0 <= k < npc_count(world.npcs@, self.npcs@) && id == world.npcs@[k].id && npc_here(
                    world.npcs@[k],
                    self.npcs@[k],
                    map,
                    pos,
                ) && forall|m: int| 0 <= m < k ==> !npc_here(#[trigger] world.npcs@[m], self.npcs@[m], map, pos),
    {
        let n = if world.npcs.len() <= self.npcs.len() {
            world.npcs.len()
        } else {
            self.npcs.len()
        };
        let mut k: usize = 0;
        while k < n
            invariant
                k <= n,
                n == npc_count(world.npcs@, self.npcs@),
                forall|m: int| 0 <= m < k ==> !npc_here(#[trigger] world.npcs@[m], self.npcs@[m], map, pos),
            decreases n - k,
        {
            let spec = &world.npcs[k];
            let npc = &self.npcs[k];
            if spec.map == map && npc.alive && !npc.fled && npc.pos == pos {
                return Some(spec.id);
            }
            k = k + 1;
        }
        None
    }

    /// Someone stands at `pos` on `map`: a living actor, a present NPC, or
    /// the hunter on the current map.
    pub fn tile_occupied(&self, world: &World, map: MapId, pos: Point) -> (r: bool)
        ensures
            r == (!no_actor_at(self.actors@, map, pos) || !no_npc_at(world.npcs@, self.npcs@, map, pos) || (map
                == self.current_map && self.hunter.pos == pos)),
    {
        self.actor_at(map, pos).is_some() || self.npc_at(world, map, pos).is_some() || (map == self.current_map
            && self.hunter.pos == pos)
    }

    /// Effective terrain, runtime overrides included.
    pub fn terrain(&self, world: &World, map: MapId, at: Point) -> (r: Terrain)
        requires
            terrain_readable(self.terrain_overrides@, *world, map, at),
        ensures
            r == state_terrain(self.terrain_overrides@, *world, map, at),
    {
        let mut k: usize = 0;
        while k < self.terrain_overrides.len()
            invariant
                k <= self.terrain_overrides.len(),
                override_from(self.terrain_overrides@, map, at, 0) == override_from(
                    self.terrain_overrides@,
                    map,
                    at,
                    k as int,
                ),
            decreases self.terrain_overrides.len() - k,
        {
            let o = self.terrain_overrides[k];
            if o.map == map && o.at == at {
                return o.terrain;
            }
            k = k + 1;
        }
        world.map(map).terrain(at)
    }

    /// Where `at` sits in a map-sized grid of flags.
    pub fn seen_index(at: Point) -> (r: usize)
        requires
            0 <= at.x,
            0 <= at.y,
        ensures
            r == at.y * MAP_WIDTH + at.x,
    {
        at.y as usize * MAP_WIDTH as usize + at.x as usize
    }

    /// Whether `at` on `map` has ever been seen; off the map nothing has.
    pub fn is_seen(&self, map: MapId, at: Point) -> (r: bool)
        requires
            spec_in_bounds(at) ==> (map.0 as int) < self.seen@.len() && tile_index(at) < self.seen@[map.0 as int]@.len(),
        ensures
            r == (spec_in_bounds(at) && self.seen@[map.0 as int]@[tile_index(at)]),
    {
        at.in_bounds() && self.seen[map.0 as usize][RunState::seen_index(at)]
    }

    /// Whether `at` is in sight now; off the map nothing is.
    pub fn is_visible(&self, at: Point) -> (r: bool)
        requires
            spec_in_bounds(at) ==> tile_index(at) < self.visible@.len(),
        ensures
            r == (spec_in_bounds(at) && self.visible@[tile_index(at)]),
    {
        at.in_bounds() && self.visible[RunState::seen_index(at)]
    }

    /// Everything but the actors and the next actor id is as in `other`.
    pub open spec fn same_but_actors(&self, other: &RunState) -> bool {
        &&& self.same_but_sight_and_actors(other)
        &&& self.seen == other.seen
        &&& self.visible == other.visible
    }

    /// Everything but the fog of war is as in `other`.
    pub open spec fn same_but_sight(&self, other: &RunState) -> bool {
        &&& self.same_but_sight_and_actors(other)
        &&& self.actors == other.actors
        &&& self.next_actor_id == other.next_actor_id
    }

    /// Everything but the log, the NPCs met and the opportunities discovered
    /// is as in `other`.
    pub open spec fn same_but_findings(&self, other: &RunState) -> bool {
        &&& self.rng == other.rng
        &&& self.clock == other.clock
        &&& self.final_hunt == other.final_hunt
        &&& self.deaths == other.deaths
        &&& self.local_turn == other.local_turn
        &&& self.current_map == other.current_map
        &&& self.hunter == other.hunter
        &&& self.actors == other.actors
        &&& self.next_actor_id == other.next_actor_id
        &&& self.npcs == other.npcs
        &&& self.villain == other.villain
        &&& self.terrain_overrides == other.terrain_overrides
        &&& self.resolved == other.resolved
        &&& self.lost == other.lost
        &&& self.identity_clues == other.identity_clues
        &&& self.discriminating_identity == other.discriminating_identity
        &&& self.origin_identified == other.origin_identified
        &&& self.scheme_identified == other.scheme_identified
        &&& self.scheme_preempted == other.scheme_preempted
        &&& self.villain_uncovered == other.villain_uncovered
        &&& self.villain_location_known == other.villain_location_known
        &&& self.known_links == other.known_links
        &&& self.known_secrets == other.known_secrets
        &&& self.disproved_secrets == other.disproved_secrets
        &&& self.seen == other.seen
        &&& self.visible == other.visible
        &&& self.church_consecrated == other.church_consecrated
        &&& self.settlement_hostile == other.settlement_hostile
        &&& self.sight_penalty == other.sight_penalty
        &&& self.sight_bonus == other.sight_bonus
        &&& self.arrived == other.arrived
        &&& self.event_cursor == other.event_cursor
        &&& self.opened_graves == other.opened_graves
        &&& self.snares == other.snares
        &&& self.wards == other.wards
        &&& self.outcome == other.outcome
    }

    /// Everything but the fog of war, the actors and the next actor id is
    /// as in `other`.
    pub open spec fn same_but_sight_and_actors(&self, other: &RunState) -> bool {
        &&& self.rng == other.rng
        &&& self.clock == other.clock
        &&& self.final_hunt == other.final_hunt
        &&& self.deaths == other.deaths
        &&& self.local_turn == other.local_turn
        &&& self.current_map == other.current_map
        &&& self.hunter == other.hunter
        &&& self.npcs == other.npcs
        &&& self.villain == other.villain
        &&& self.terrain_overrides == other.terrain_overrides
        &&& self.discovered == other.discovered
        &&& self.resolved == other.resolved
        &&& self.lost == other.lost
        &&& self.identity_clues == other.identity_clues
        &&& self.discriminating_identity == other.discriminating_identity
        &&& self.origin_identified == other.origin_identified
        &&& self.scheme_identified == other.scheme_identified
        &&& self.scheme_preempted == other.scheme_preempted
        &&& self.villain_uncovered == other.villain_uncovered
        &&& self.villain_location_known == other.villain_location_known
        &&& self.met_npcs == other.met_npcs
        &&& self.known_links == other.known_links
        &&& self.known_secrets == other.known_secrets
        &&& self.disproved_secrets == other.disproved_secrets
        &&& self.church_consecrated == other.church_consecrated
        &&& self.settlement_hostile == other.settlement_hostile
        &&& self.sight_penalty == other.sight_penalty
        &&& self.sight_bonus == other.sight_bonus
        &&& self.arrived == other.arrived
        &&& self.event_cursor == other.event_cursor
        &&& self.opened_graves == other.opened_graves
        &&& self.snares == other.snares
        &&& self.wards == other.wards
        &&& self.log == other.log
        &&& self.outcome == other.outcome
    }
}

/// A newly spawned actor: full health, asleep, with every counter at rest.
pub open spec fn fresh_actor(id: ActorId, kind: ActorKind, map: MapId, pos: Point, hp: u16) -> Actor {
    Actor {
        id,
        kind,
        map,
        pos,
        hp,
        max_hp: hp,
        awake: false,
        trapped: 0,
        pounce_cooldown: 0,
        pounce_primed: false,
        dash_cooldown: 0,
        cadence: 0,
        bound: 0,
        regen_stopped: false,
        ward_charges: 0,
        ward_reweave: 0,
        slow_phase: false,
        dormant: 0,
    }
}

/// How many times `x` occurs in `s`.
pub open spec fn occurrences(s: Seq<Seq<char>>, x: Seq<char>) -> int
    decreases s.len(),
{
    if s.len() == 0 {
        0
    } else {
        occurrences(s.drop_last(), x) + if s.last() == x {
            1int
        } else {
            0int
        }
    }
}

proof fn lemma_occurrences_bounded(s: Seq<Seq<char>>, x: Seq<char>)
    ensures
        0 <= occurrences(s, x) <= s.len(),
    decreases s.len(),
{
    if s.len() > 0 {
        lemma_occurrences_bounded(s.drop_last(), x);
    }
}

/// How many baseline enemies the first `n` maps place.
pub open spec fn spawns_before(maps: Seq<WorldMap>, n: int) -> int
    decreases n,
{
    if n <= 0 {
        0
    } else {
        spawns_before(maps, n - 1) + maps[n - 1].initial_enemies@.len()
    }
}

proof fn lemma_spawns_grow(maps: Seq<WorldMap>, a: int, b: int)
    requires
        0 <= a <= b,
    ensures
        0 <= spawns_before(maps, a) <= spawns_before(maps, b),
    decreases b,
{
    if a < b {
        lemma_spawns_grow(maps, a, b - 1);
    } else if a > 0 {
        lemma_spawns_grow(maps, a - 1, a - 1);
        lemma_spawns_grow(maps, 0, a - 1);
    }
}

/// The health an enemy of kind `enemy` spawns with: its catalogue entry's,
/// or 1 for a kind the catalogue lacks.
pub open spec fn spawn_health(catalogue: &Catalogue, enemy: Seq<char>) -> u16 {
    match catalogue.enemies.lookup(enemy) {
        Some(def) => def.health,
        None => 1,
    }
}

/// `a` is a freshly spawned enemy of kind `enemy` with id `id`.
pub open spec fn spawned_enemy(a: Actor, id: int, enemy: Seq<char>, map: int, pos: Point, hp: u16) -> bool {
    &&& a.id.0 == id
    &&& a.kind matches ActorKind::Enemy(name) && name@ == enemy
    &&& a.map.0 == map as u8
    &&& a == fresh_actor(a.id, a.kind, a.map, pos, hp)
}

/// An NPC at the start of a run: alive, at work, unharmed and unhurried.
pub open spec fn fresh_npc(work: Point) -> NpcState {
    NpcState {
        pos: work,
        alive: true,
        fled: false,
        attacked: false,
        leveraged: false,
        hp: 2,
        chat_timer: 6,
        chat_target: None,
        chatting: 0,
    }
}

/// A map-sized grid with nothing marked.
fn blank_grid() -> (r: Vec<bool>)
    ensures
        r@ == Seq::new(640, |i: int| false),
{
    let mut r: Vec<bool> = Vec::new();
    let mut i: usize = 0;
    while i < 640
        invariant
            i <= 640,
            r@ == Seq::new(i as nat, |k: int| false),
        decreases 640 - i,
    {
        r.push(false);
        i = i + 1;
        proof {
            assert(r@ =~= Seq::new(i as nat, |k: int| false));
        }
    }
    r
}

impl RunState {
    /// Fresh state for a generated world. The generator carries on from
    /// wherever generation left it: one stream drives generation and the run.
    #[verifier::rlimit(50)]
    pub fn new(world: &World, catalogue: &Catalogue, rng: RngState) -> (s: Self)
        requires
            world.maps@.len() > 0,
            catalogue.hunter.starting_items@.len() <= u16::MAX,
            spawns_before(world.maps@, world.maps@.len() as int) <= u16::MAX,
        ensures
            s.rng == rng,
            s.clock == 0,
            !s.final_hunt,
            s.deaths == 0,
            s.local_turn == 0,
            forall|i: int| first_of_role(world.maps@, MapRole::Settlement, i) ==> s.current_map.0 == (i as u8),
            (forall|i: int| 0 <= i < world.maps@.len() ==> (#[trigger] world.maps@[i]).role != MapRole::Settlement)
                ==> s.current_map.0 == 0,
            (s.current_map.0 as int) < world.maps@.len(),
            s.hunter.pos == world.maps@[s.current_map.0 as int].entry,
            s.hunter.hp == catalogue.hunter.health,
            s.hunter.max_hp == catalogue.hunter.health,
            s.hunter.lore == catalogue.hunter.lore_cap,
            s.hunter.social == catalogue.hunter.social_cap,
            s.hunter.mystic == catalogue.hunter.mystic_cap,
            s.hunter.mystic_bonus == 0,
            s.hunter.physical == catalogue.hunter.physical_cap,
            s.hunter.stamina == catalogue.hunter.stamina_cap,
            !s.hunter.sure_shot,
            s.hunter.melee_multiplier is None,
            !s.hunter.favour_used,
            s.hunter.second_turns == 0,
            s.hunter.second_damage == 0,
            forall|item: Seq<char>|
                #[trigger] s.hunter.spec_item_count(item) == occurrences(texts(catalogue.hunter.starting_items@), item),
            forall|item: Seq<char>|
                #[trigger] s.hunter.inventory.contains(item) <==> occurrences(
                    texts(catalogue.hunter.starting_items@),
                    item,
                ) > 0,
            s.actors@.len() == spawns_before(world.maps@, world.maps@.len() as int),
            s.next_actor_id == s.actors@.len(),
            forall|mi: int, si: int|
                0 <= mi < world.maps@.len() && 0 <= si < world.maps@[mi].initial_enemies@.len() ==> spawned_enemy(
                    #[trigger] s.actors@[spawns_before(world.maps@, mi) + si],
                    spawns_before(world.maps@, mi) + si,
                    world.maps@[mi].initial_enemies@[si].enemy@,
                    mi,
                    world.maps@[mi].initial_enemies@[si].at,
                    spawn_health(catalogue, world.maps@[mi].initial_enemies@[si].enemy@),
                ),
            s.npcs@.len() == world.npcs@.len(),
            forall|k: int| 0 <= k < world.npcs@.len() ==> #[trigger] s.npcs@[k] == fresh_npc(world.npcs@[k].work),
            s.villain == (VillainRunState { tier: 0, active: false, actor: None, dead: false }),
            s.terrain_overrides@.len() == 0,
            s.discovered@.len() == 0,
            s.resolved@.len() == 0,
            s.lost@.len() == 0,
            s.identity_clues@.len() == 0,
            s.discriminating_identity@.len() == 0,
            !s.origin_identified,
            !s.scheme_identified,
            !s.scheme_preempted,
            !s.villain_uncovered,
            !s.villain_location_known,
            s.met_npcs@.len() == 0,
            s.known_links@.len() == 0,
            s.known_secrets@.len() == 0,
            s.disproved_secrets@.len() == 0,
            s.seen@.len() == world.maps@.len(),
            forall|m: int| 0 <= m < world.maps@.len() ==> (#[trigger] s.seen@[m])@ == Seq::new(640, |i: int| false),
            s.visible@ == Seq::new(640, |i: int| false),
            !s.church_consecrated,
            !s.settlement_hostile,
            s.sight_penalty == 0,
            s.sight_bonus == 0,
            s.arrived@.len() == 0,
            s.event_cursor@ == Seq::new(world.maps@.len(), |i: int| 0u8),
            s.opened_graves@.len() == 0,
            s.snares@.len() == 0,
            s.wards@.len() == 0,
            s.log@.len() == 0,
            s.outcome is None,
    {
        let hunter_def = &catalogue.hunter;
        let settlement = world.map_by_role(MapRole::Settlement);
        let entry = world.map(settlement).entry;
        let mut hunter = HunterState {
            pos: entry,
            hp: hunter_def.health,
            max_hp: hunter_def.health,
            lore: hunter_def.lore_cap,
            social: hunter_def.social_cap,
            mystic: hunter_def.mystic_cap,
            mystic_bonus: 0,
            physical: hunter_def.physical_cap,
            stamina: hunter_def.stamina_cap,
            inventory: KeyedMap::new(),
            sure_shot: false,
            melee_multiplier: None,
            favour_used: false,
            second_turns: 0,
            second_damage: 0,
        };
        let ghost blank_hunter = hunter;
        let ghost items = texts(hunter_def.starting_items@);
        let mut k: usize = 0;
        while k < hunter_def.starting_items.len()
            invariant
                k <= hunter_def.starting_items@.len(),
                hunter_def.starting_items@.len() <= u16::MAX,
                items == texts(hunter_def.starting_items@),
                hunter.same_but_inventory(&blank_hunter),
                forall|x: Seq<char>| #[trigger] hunter.spec_item_count(x) == occurrences(items.take(k as int), x),
                forall|x: Seq<char>| #[trigger] hunter.inventory.contains(x) <==> occurrences(items.take(k as int), x) > 0,
            decreases hunter_def.starting_items@.len() - k,
        {
            let ghost before = hunter;
            proof {
                lemma_occurrences_bounded(items.take(k as int), hunter_def.starting_items@[k as int]@);
                assert(items.take(k + 1).drop_last() =~= items.take(k as int));
                assert(items.take(k + 1).last() == hunter_def.starting_items@[k as int]@);
            }
            hunter.add_item(hunter_def.starting_items[k].as_str(), 1);
            k = k + 1;
            proof {
                assert forall|x: Seq<char>| #[trigger] hunter.spec_item_count(x) == occurrences(items.take(k as int), x) by {
                    let prev = items.take(k - 1);
                    assert(items.take(k as int).drop_last() =~= prev);
                    assert(items.take(k as int).last() == hunter_def.starting_items@[k - 1]@);
                    assert(before.spec_item_count(x) == occurrences(prev, x));
                    lemma_occurrences_bounded(prev, x);
                    if x != hunter_def.starting_items@[k - 1]@ {
                        assert(hunter.inventory.lookup(x) == before.inventory.lookup(x));
                    }
                }
                assert forall|x: Seq<char>| #[trigger] hunter.inventory.contains(x) <==> occurrences(
                    items.take(k as int),
                    x,
                ) > 0 by {
                    assert(items.take(k as int).drop_last() =~= items.take(k - 1));
                    lemma_occurrences_bounded(items.take(k - 1), x);
                    if x != hunter_def.starting_items@[k - 1]@ {
                        assert(hunter.inventory.lookup(x) == before.inventory.lookup(x));
                    }
                }
            }
        }
        proof {
            assert(items.take(k as int) =~= items);
        }
        let mut npcs: Vec<NpcState> = Vec::new();
        let mut n: usize = 0;
        while n < world.npcs.len()
            invariant
                n <= world.npcs@.len(),
                npcs@.len() == n,
                forall|m: int| 0 <= m < n ==> #[trigger] npcs@[m] == fresh_npc(world.npcs@[m].work),
            decreases world.npcs@.len() - n,
        {
            npcs.push(
                NpcState {
                    pos: world.npcs[n].work,
                    alive: true,
                    fled: false,
                    attacked: false,
                    leveraged: false,
                    hp: 2,
                    chat_timer: 6,
                    chat_target: None,
                    chatting: 0,
                },
            );
            n = n + 1;
        }
        let mut seen: Vec<Vec<bool>> = Vec::new();
        let mut cursor: Vec<u8> = Vec::new();
        let mut m: usize = 0;
        while m < world.maps.len()
            invariant
                m <= world.maps@.len(),
                seen@.len() == m,
                forall|j: int| 0 <= j < m ==> (#[trigger] seen@[j])@ == Seq::new(640, |i: int| false),
                cursor@ == Seq::new(m as nat, |i: int| 0u8),
            decreases world.maps@.len() - m,
        {
            seen.push(blank_grid());
            cursor.push(0);
            m = m + 1;
            proof {
                assert(cursor@ =~= Seq::new(m as nat, |i: int| 0u8));
            }
        }
        let mut state = RunState {
            rng,
            clock: 0,
            final_hunt: false,
            deaths: 0,
            local_turn: 0,
            current_map: settlement,
            hunter,
            actors: Vec::new(),
            next_actor_id: 0,
            npcs,
            villain: VillainRunState { tier: 0, active: false, actor: None, dead: false },
            terrain_overrides: Vec::new(),
            discovered: Vec::new(),
            resolved: Vec::new(),
            lost: Vec::new(),
            identity_clues: Vec::new(),
            discriminating_identity: Vec::new(),
            origin_identified: false,
            scheme_identified: false,
            scheme_preempted: false,
            villain_uncovered: false,
            villain_location_known: false,
            met_npcs: Vec::new(),
            known_links: Vec::new(),
            known_secrets: Vec::new(),
            disproved_secrets: Vec::new(),
            seen,
            visible: blank_grid(),
            church_consecrated: false,
            settlement_hostile: false,
            sight_penalty: 0,
            sight_bonus: 0,
            arrived: Vec::new(),
            event_cursor: cursor,
            opened_graves: Vec::new(),
            snares: Vec::new(),
            wards: Vec::new(),
            log: Vec::new(),
            outcome: None,
        };
        let ghost base = state;
        let ghost maps = world.maps@;
        let ghost total = spawns_before(maps, maps.len() as int);
        let mut mi: usize = 0;
        while mi < world.maps.len()
            invariant
                mi <= maps.len(),
                maps == world.maps@,
                total == spawns_before(maps, maps.len() as int),
                total <= u16::MAX,
                state.same_but_actors(&base),
                state.actors@.len() == spawns_before(maps, mi as int),
                state.next_actor_id == state.actors@.len(),
                forall|a: int, b: int|
                    0 <= a < mi && 0 <= b < maps[a].initial_enemies@.len() ==> spawned_enemy(
                        #[trigger] state.actors@[spawns_before(maps, a) + b],
                        spawns_before(maps, a) + b,
                        maps[a].initial_enemies@[b].enemy@,
                        a,
                        maps[a].initial_enemies@[b].at,
                        spawn_health(catalogue, maps[a].initial_enemies@[b].enemy@),
                    ),
            decreases maps.len() - mi,
        {
            let spawns = &world.maps[mi].initial_enemies;
            proof {
                lemma_spawns_grow(maps, mi + 1, maps.len() as int);
            }
            let mut si: usize = 0;
            while si < spawns.len()
                invariant
                    mi < maps.len(),
                    maps == world.maps@,
                    *spawns == maps[mi as int].initial_enemies,
                    spawns_before(maps, mi + 1) <= u16::MAX,
                    si <= spawns@.len(),
                    state.same_but_actors(&base),
                    state.actors@.len() == spawns_before(maps, mi as int) + si,
                    state.next_actor_id == state.actors@.len(),
                    forall|a: int, b: int|
                        0 <= a < mi && 0 <= b < maps[a].initial_enemies@.len() ==> spawned_enemy(
                            #[trigger] state.actors@[spawns_before(maps, a) + b],
                            spawns_before(maps, a) + b,
                            maps[a].initial_enemies@[b].enemy@,
                            a,
                            maps[a].initial_enemies@[b].at,
                            spawn_health(catalogue, maps[a].initial_enemies@[b].enemy@),
                        ),
                    forall|b: int|
                        0 <= b < si ==> spawned_enemy(
                            #[trigger] state.actors@[spawns_before(maps, mi as int) + b],
                            spawns_before(maps, mi as int) + b,
                            maps[mi as int].initial_enemies@[b].enemy@,
                            mi as int,
                            maps[mi as int].initial_enemies@[b].at,
                            spawn_health(catalogue, maps[mi as int].initial_enemies@[b].enemy@),
                        ),
                decreases spawns@.len() - si,
            {
                let spawn = &spawns[si];
                let hp = match catalogue.enemies.get(spawn.enemy.as_str()) {
                    Some(def) => def.health,
                    None => 1,
                };
                #[verifier::truncate]
                let index = mi as u8;
                let ghost old_actors = state.actors@;
                let id = state.spawn_actor(ActorKind::Enemy(text_owned(spawn.enemy.as_str())), MapId(index), spawn.at, hp);
                proof {
                    assert forall|a: int, b: int|
                        0 <= a < mi && 0 <= b < maps[a].initial_enemies@.len() implies spawned_enemy(
                            #[trigger] state.actors@[spawns_before(maps, a) + b],
                            spawns_before(maps, a) + b,
                            maps[a].initial_enemies@[b].enemy@,
                            a,
                            maps[a].initial_enemies@[b].at,
                            spawn_health(catalogue, maps[a].initial_enemies@[b].enemy@),
                        ) by {
                        lemma_spawns_grow(maps, a + 1, mi as int);
                        assert(state.actors@[spawns_before(maps, a) + b] == old_actors[spawns_before(maps, a) + b]);
                    }
                    assert forall|b: int|
                        0 <= b < si + 1 implies spawned_enemy(
                            #[trigger] state.actors@[spawns_before(maps, mi as int) + b],
                            spawns_before(maps, mi as int) + b,
                            maps[mi as int].initial_enemies@[b].enemy@,
                            mi as int,
                            maps[mi as int].initial_enemies@[b].at,
                            spawn_health(catalogue, maps[mi as int].initial_enemies@[b].enemy@),
                        ) by {
                        if b < si {
                            assert(state.actors@[spawns_before(maps, mi as int) + b] == old_actors[spawns_before(
                                maps,
                                mi as int,
                            ) + b]);
                        }
                    }
                }
                si = si + 1;
            }
            mi = mi + 1;
        }
        state
    }
}

} // verus!
