//! The simulation's parts, the catalogue, the generated world and the run,
//! and the checks and lookups its commands share.
use vstd::prelude::*;

use crate::catalogue::Catalogue;
use crate::command::{Rejection, Target};
use crate::events::{EventKind, LogEvent};
use crate::fov::{grid_point, grid_tiles, is_walkable};
use crate::geometry::{chebyshev, diff_fits, spec_in_bounds, Point, MAP_HEIGHT, MAP_WIDTH};
use crate::schema::{ItemDef, ItemKind, ManoeuvreDef, ManoeuvreEffect, TierBehaviour, TierEffect, VillainDef};
use crate::schema::spec_walkable;
use crate::state::{
    no_actor_at, no_npc_at, npc_count, state_terrain, terrain_readable, Actor, ActorId, ActorKind, RunState,
};
use crate::strings::{args_view, fill_all, StringId};
use crate::client::SightEntry;
use crate::text::{decimal, push_number, push_text, text_eq, text_owned};
use crate::world::{tile_index, DiscoveryRule, ExitSpec, MapId, NpcId, OpportunityAnchor, OpportunityId, World};

verus! {

pub struct Sim {
    pub catalogue: Catalogue,
    pub world: World,
    pub state: RunState,
}

/// Extra ward charges the first `n` tier behaviours grant.
pub open spec fn ward_bonus(bs: Seq<TierBehaviour>, n: int) -> int
    decreases n,
{
    if n <= 0 {
        0
    } else {
        ward_bonus(bs, n - 1) + match bs[n - 1].effect {
            TierEffect::WardCharges { amount } => amount as int,
            _ => 0int,
        }
    }
}

proof fn lemma_ward_bonus_grows(bs: Seq<TierBehaviour>, a: int, b: int)
    requires
        0 <= a <= b,
    ensures
        0 <= ward_bonus(bs, a) <= ward_bonus(bs, b),
    decreases b,
{
    if a < b {
        lemma_ward_bonus_grows(bs, a, b - 1);
    } else if a > 0 {
        lemma_ward_bonus_grows(bs, 0, a - 1);
    }
}

/// The first actor in `actors` with id `id` is at index `k`.
pub open spec fn first_with_id(actors: Seq<Actor>, id: ActorId, k: int) -> bool {
    &&& 0 <= k < actors.len()
    &&& actors[k].id == id
    &&& forall|m: int| 0 <= m < k ==> (#[trigger] actors[m]).id != id
}

/// What a carried item offers in melee: its damage, and whether it is the
/// blade that cuts this villain's ward.
pub open spec fn melee_option(def: Option<ItemDef>, key: Seq<char>, weakness: Seq<char>) -> Option<(u16, bool)> {
    match def {
        Some(d) => match d.kind {
            ItemKind::MeleeWeapon { damage } => Some((damage, false)),
            ItemKind::WeaknessBlade { damage } => Some((damage, key == weakness)),
            _ => None,
        },
        None => None,
    }
}

/// The best melee option among the first `n` keys; of equal damage, the
/// later key wins.
pub open spec fn best_melee_of(
    items: Seq<Seq<char>>,
    defs: spec_fn(Seq<char>) -> Option<ItemDef>,
    weakness: Seq<char>,
    n: int,
) -> Option<(u16, bool)>
    decreases n,
{
    if n <= 0 {
        None
    } else {
        let prev = best_melee_of(items, defs, weakness, n - 1);
        match melee_option(defs(items[n - 1]), items[n - 1], weakness) {
            None => prev,
            Some(o) => match prev {
                None => Some(o),
                Some(p) => if o.0 >= p.0 {
                    Some(o)
                } else {
                    Some(p)
                },
            },
        }
    }
}

/// What a carried item offers at range: its reach and damage.
pub open spec fn ranged_option(def: Option<ItemDef>) -> Option<(u8, u16)> {
    match def {
        Some(d) => match d.kind {
            ItemKind::RangedWeapon { damage, range, .. } => Some((range, damage)),
            _ => None,
        },
        None => None,
    }
}

impl Sim {
    /// The catalogue describes this world's villain.
    pub open spec fn has_villain_def(&self) -> bool {
        self.catalogue.villains.contains(self.world.villain.archetype@)
    }

    /// The catalogue's description of this world's villain.
    pub open spec fn spec_villain(&self) -> VillainDef {
        self.catalogue.villains.lookup(self.world.villain.archetype@).unwrap()
    }

    /// The catalogue's item named `key`, if any.
    pub open spec fn item_def(&self) -> spec_fn(Seq<char>) -> Option<ItemDef> {
        |key: Seq<char>| self.catalogue.items.lookup(key)
    }

    pub fn villain_def(&self) -> (r: &VillainDef)
        requires
            self.has_villain_def(),
        ensures
            *r == self.spec_villain(),
    {
        self.catalogue.villains.get(self.world.villain.archetype.as_str()).unwrap()
    }

    /// Ward charges the villain stands with: its ward's own, plus what each
    /// tier reached so far adds. No ward, no charges.
    pub fn villain_ward_charges(&self) -> (r: u8)
        requires
            self.has_villain_def(),
            self.spec_villain().ward matches Some(w) ==> w.charges + ward_bonus(
                self.spec_villain().tier_behaviours@,
                if (self.state.villain.tier as int) < self.spec_villain().tier_behaviours@.len() {
                    self.state.villain.tier as int
                } else {
                    self.spec_villain().tier_behaviours@.len() as int
                },
            ) <= u8::MAX,
        ensures
            r == match self.spec_villain().ward {
                None => 0,
                Some(w) => w.charges + ward_bonus(
                    self.spec_villain().tier_behaviours@,
                    if (self.state.villain.tier as int) < self.spec_villain().tier_behaviours@.len() {
                        self.state.villain.tier as int
                    } else {
                        self.spec_villain().tier_behaviours@.len() as int
                    },
                ),
            },
    {
        let def = self.villain_def();
        match &def.ward {
            None => 0,
            Some(ward) => {
                let bs = &def.tier_behaviours;
                let tier = self.state.villain.tier as usize;
                let n = if tier < bs.len() {
                    tier
                } else {
                    bs.len()
                };
                let mut bonus: u8 = 0;
                let mut k: usize = 0;
                while k < n
                    invariant
                        k <= n <= bs@.len(),
                        bonus == ward_bonus(bs@, k as int),
                        ward.charges + ward_bonus(bs@, n as int) <= u8::MAX,
                    decreases n - k,
                {
                    proof {
                        lemma_ward_bonus_grows(bs@, k + 1, n as int);
                    }
                    match bs[k].effect {
                        TierEffect::WardCharges { amount } => {
                            bonus = bonus + amount;
                        },
                        _ => {},
                    }
                    k = k + 1;
                }
                ward.charges + bonus
            },
        }
    }

    /// The actor with id `id`, if it is alive and on the current map.
    pub fn live_actor(&self, id: ActorId) -> (r: Result<&Actor, Rejection>)
        ensures
            r is Ok <==> exists|k: int|
                first_with_id(self.state.actors@, id, k) && self.state.actors@[k].hp > 0
                    && self.state.actors@[k].map == self.state.current_map,
            r matches Ok(a) ==> exists|k: int| first_with_id(self.state.actors@, id, k) && *a == self.state.actors@[k],
            r matches Err(e) ==> e is NoSuchTarget,
    {
        match self.state.actor(id) {
            Some(actor) => {
                let ghost k = choose|k: int|
                    0 <= k < self.state.actors@.len() && *actor == self.state.actors@[k] && actor.id == id && forall|m: int|
                        0 <= m < k ==> (#[trigger] self.state.actors@[m]).id != id;
                proof {
                    assert(first_with_id(self.state.actors@, id, k));
                    assert forall|j: int| first_with_id(self.state.actors@, id, j) implies j == k by {
                        if j < k {
                            assert(self.state.actors@[j].id != id);
                        } else if j > k {
                            assert(self.state.actors@[k].id != id);
                        }
                    }
                }
                if actor.hp > 0 && actor.map == self.state.current_map {
                    Ok(actor)
                } else {
                    Err(Rejection::NoSuchTarget)
                }
            },
            None => Err(Rejection::NoSuchTarget),
        }
    }

    /// The NPC is on the current map, alive and not fled.
    pub open spec fn npc_present(&self, npc: NpcId) -> bool {
        &&& self.world.npcs@[npc.0 as int].map == self.state.current_map
        &&& self.state.npcs@[npc.0 as int].alive
        &&& !self.state.npcs@[npc.0 as int].fled
    }

    pub fn require_npc_present(&self, npc: NpcId) -> (r: Result<(), Rejection>)
        requires
            (npc.0 as int) < self.world.npcs@.len(),
            (npc.0 as int) < self.state.npcs@.len(),
        ensures
            r is Ok <==> self.npc_present(npc),
            r matches Err(e) ==> e is NpcUnavailable,
    {
        let spec = self.world.npc(npc);
        let npc_state = &self.state.npcs[npc.0 as usize];
        if spec.map != self.state.current_map || !npc_state.alive || npc_state.fled {
            return Err(Rejection::NpcUnavailable);
        }
        Ok(())
    }

    pub fn require_npc_adjacent(&self, npc: NpcId) -> (r: Result<(), Rejection>)
        requires
            (npc.0 as int) < self.world.npcs@.len(),
            (npc.0 as int) < self.state.npcs@.len(),
            self.npc_present(npc) ==> diff_fits(self.state.hunter.pos, self.state.npcs@[npc.0 as int].pos),
        ensures
            r is Ok <==> self.npc_present(npc) && self.state.hunter.pos != self.state.npcs@[npc.0 as int].pos
                && chebyshev(self.state.hunter.pos, self.state.npcs@[npc.0 as int].pos) <= 1,
            r matches Err(e) ==> (if self.npc_present(npc) {
                e is NotAdjacent
            } else {
                e is NpcUnavailable
            }),
    {
        match self.require_npc_present(npc) {
            Err(e) => return Err(e),
            Ok(()) => {},
        }
        let pos = self.state.npcs[npc.0 as usize].pos;
        if !self.state.hunter.pos.is_adjacent(pos) {
            return Err(Rejection::NotAdjacent);
        }
        Ok(())
    }

    /// The best melee option carried, and whether it is the counter that
    /// cuts through this villain's ward; bare hands do 1.
    pub fn best_melee(&self) -> (r: (u16, bool))
        requires
            self.has_villain_def(),
        ensures
            r == match best_melee_of(
                self.state.hunter.inventory.keys(),
                self.item_def(),
                self.spec_villain().weakness_item@,
                self.state.hunter.inventory.len_spec() as int,
            ) {
                Some(o) => o,
                None => (1u16, false),
            },
    {
        let weakness = &self.villain_def().weakness_item;
        let inventory = &self.state.hunter.inventory;
        let mut best: Option<(u16, bool)> = None;
        let mut k: usize = 0;
        while k < inventory.len()
            invariant
                k <= inventory.len_spec(),
                *inventory == self.state.hunter.inventory,
                weakness@ == self.spec_villain().weakness_item@,
                best == best_melee_of(inventory.keys(), self.item_def(), weakness@, k as int),
            decreases inventory.len_spec() - k,
        {
            let (item, _) = inventory.entry(k);
            let option = match self.catalogue.items.get(item.as_str()) {
                Some(def) => match &def.kind {
                    ItemKind::MeleeWeapon { damage } => Some((*damage, false)),
                    ItemKind::WeaknessBlade { damage } => Some((*damage, text_eq(item.as_str(), weakness.as_str()))),
                    _ => None,
                },
                None => None,
            };
            match option {
                None => {},
                Some(o) => {
                    best = match best {
                        None => Some(o),
                        Some(p) => if o.0 >= p.0 {
                            Some(o)
                        } else {
                            Some(p)
                        },
                    };
                },
            }
            k = k + 1;
        }
        match best {
            Some(o) => o,
            None => (1, false),
        }
    }

    /// The damage of the best melee option carried.
    pub fn melee_damage(&self) -> (r: u16)
        requires
            self.has_villain_def(),
        ensures
            r == (match best_melee_of(
                self.state.hunter.inventory.keys(),
                self.item_def(),
                self.spec_villain().weakness_item@,
                self.state.hunter.inventory.len_spec() as int,
            ) {
                Some(o) => o,
                None => (1u16, false),
            }).0,
    {
        self.best_melee().0
    }

    /// The reach and damage of the first ranged weapon carried, in id order.
    pub fn ranged_weapon(&self) -> (r: Option<(u8, u16)>)
        ensures
            r is None <==> forall|k: int|
                0 <= k < self.state.hunter.inventory.len_spec() ==> ranged_option(
                    self.catalogue.items.lookup(#[trigger] self.state.hunter.inventory.keys()[k]),
                ) is None,
            r matches Some(w) ==> exists|k: int|
                0 <= k < self.state.hunter.inventory.len_spec() && ranged_option(
                    self.catalogue.items.lookup(self.state.hunter.inventory.keys()[k]),
                ) == Some(w) && forall|m: int|
                    0 <= m < k ==> ranged_option(
                        self.catalogue.items.lookup(#[trigger] self.state.hunter.inventory.keys()[m]),
                    ) is None,
    {
        let inventory = &self.state.hunter.inventory;
        let mut k: usize = 0;
        while k < inventory.len()
            invariant
                k <= inventory.len_spec(),
                *inventory == self.state.hunter.inventory,
                forall|m: int|
                    0 <= m < k ==> ranged_option(self.catalogue.items.lookup(#[trigger] inventory.keys()[m])) is None,
            decreases inventory.len_spec() - k,
        {
            let (item, _) = inventory.entry(k);
            match self.catalogue.items.get(item.as_str()) {
                Some(def) => match &def.kind {
                    ItemKind::RangedWeapon { damage, range, .. } => {
                        return Some((*range, *damage));
                    },
                    _ => {},
                },
                None => {},
            }
            k = k + 1;
        }
        None
    }

    /// An item's display name; an id the catalogue lacks stands for itself.
    pub fn item_name(&self, id: &str) -> (r: String)
        ensures
            r@ == match self.catalogue.items.lookup(id@) {
                Some(def) => self.catalogue.strings.resolve(def.name.0@),
                None => id@,
            },
    {
        match self.catalogue.items.get(id) {
            Some(def) => text_owned(self.catalogue.strings.get(&def.name)),
            None => text_owned(id),
        }
    }

    /// The first exit of the current map at `at`.
    pub fn exit_at(&self, at: Point) -> (r: Option<&ExitSpec>)
        requires
            (self.state.current_map.0 as int) < self.world.maps@.len(),
        ensures
            r is None <==> forall|k: int|
                0 <= k < self.world.maps@[self.state.current_map.0 as int].exits@.len()
                    ==> (#[trigger] self.world.maps@[self.state.current_map.0 as int].exits@[k]).at != at,
            r matches Some(e) ==> exists|k: int|
                0 <= k < self.world.maps@[self.state.current_map.0 as int].exits@.len() && *e
                    == self.world.maps@[self.state.current_map.0 as int].exits@[k] && e.at == at && forall|m: int|
                    0 <= m < k ==> (#[trigger] self.world.maps@[self.state.current_map.0 as int].exits@[m]).at != at,
    {
        let exits = &self.world.map(self.state.current_map).exits;
        let mut k: usize = 0;
        while k < exits.len()
            invariant
                k <= exits@.len(),
                *exits == self.world.maps@[self.state.current_map.0 as int].exits,
                forall|m: int| 0 <= m < k ==> (#[trigger] exits@[m]).at != at,
            decreases exits@.len() - k,
        {
            if exits[k].at == at {
                return Some(&exits[k]);
            }
            k = k + 1;
        }
        None
    }

    /// Some living actor on the current map has noticed the hunter.
    pub fn hostiles_aware_on_current_map(&self) -> (r: bool)
        ensures
            r == exists|k: int|
                0 <= k < self.state.actors@.len() && (#[trigger] self.state.actors@[k]).map == self.state.current_map
                    && self.state.actors@[k].hp > 0 && self.state.actors@[k].awake,
    {
        let mut k: usize = 0;
        while k < self.state.actors.len()
            invariant
                k <= self.state.actors@.len(),
                forall|m: int|
                    0 <= m < k ==> !((#[trigger] self.state.actors@[m]).map == self.state.current_map
                        && self.state.actors@[m].hp > 0 && self.state.actors@[m].awake),
            decreases self.state.actors@.len() - k,
        {
            let a = &self.state.actors[k];
            if a.map == self.state.current_map && a.hp > 0 && a.awake {
                return true;
            }
            k = k + 1;
        }
        false
    }
    /// The first actor with id `id` is the villain.
    pub open spec fn is_villain_actor(&self, id: ActorId) -> bool {
        exists|k: int|
            first_with_id(self.state.actors@, id, k) && self.state.actors@[k].kind is Villain
    }

    /// Whether the actor `id` can be wounded now: ordinary enemies always
    /// can; the villain can when its kind keeps no cadence, while dormant or
    /// bound, while it stands on consecrated ground that hurts it, or on the
    /// last beat of its cadence. No such actor, no wound.
    pub open spec fn spec_vulnerable(&self, id: ActorId) -> bool {
        if exists|k: int| first_with_id(self.state.actors@, id, k) {
            let a = self.state.actors@[choose|k: int| first_with_id(self.state.actors@, id, k)];
            match a.kind {
                ActorKind::Enemy(_) => true,
                ActorKind::Villain => {
                    let def = self.spec_villain();
                    match def.cadence {
                        None => true,
                        Some(c) => {
                            ||| a.dormant > 0
                            ||| a.bound > 0
                            ||| def.affected_by_consecration && self.state.church_consecrated
                                && self.world.maps@[a.map.0 as int].consecration_area@.contains(a.pos)
                            ||| a.cadence == c.period - 1
                        },
                    }
                },
            }
        } else {
            false
        }
    }

    /// What judging the villain's vulnerability reads is there to read.
    pub open spec fn vulnerability_readable(&self, id: ActorId) -> bool {
        forall|k: int|
            first_with_id(self.state.actors@, id, k) && self.state.actors@[k].kind is Villain ==> {
                let a = self.state.actors@[k];
                &&& self.has_villain_def()
                &&& match self.spec_villain().cadence {
                    Some(c) => a.dormant == 0 && a.bound == 0 ==> {
                        &&& self.spec_villain().affected_by_consecration && self.state.church_consecrated
                            ==> (a.map.0 as int) < self.world.maps@.len()
                        &&& !(self.spec_villain().affected_by_consecration && self.state.church_consecrated
                            && self.world.maps@[a.map.0 as int].consecration_area@.contains(a.pos)) ==> c.period > 0
                    },
                    None => true,
                }
            }
    }

    pub fn villain_is_vulnerable(&self, id: ActorId) -> (r: bool)
        requires
            self.vulnerability_readable(id),
        ensures
            r == self.spec_vulnerable(id),
    {
        match self.state.actor(id) {
            None => false,
            Some(actor) => {
                let ghost k = choose|k: int|
                    0 <= k < self.state.actors@.len() && *actor == self.state.actors@[k] && actor.id == id && forall|m: int|
                        0 <= m < k ==> (#[trigger] self.state.actors@[m]).id != id;
                proof {
                    assert(first_with_id(self.state.actors@, id, k));
                    assert forall|j: int| first_with_id(self.state.actors@, id, j) implies j == k by {
                        if j < k {
                            assert(self.state.actors@[j].id != id);
                        } else if j > k {
                            assert(self.state.actors@[k].id != id);
                        }
                    }
                }
                match &actor.kind {
                    ActorKind::Enemy(_) => true,
                    ActorKind::Villain => {
                        let def = self.villain_def();
                        match &def.cadence {
                            None => true,
                            Some(c) => {
                                if actor.dormant > 0 || actor.bound > 0 {
                                    return true;
                                }
                                if def.affected_by_consecration && self.state.church_consecrated && point_listed(
                                    &self.world.map(actor.map).consecration_area,
                                    actor.pos,
                                ) {
                                    return true;
                                }
                                actor.cadence == c.period - 1
                            },
                        }
                    },
                }
            },
        }
    }

    /// How an actor is named: an enemy by its catalogue name, or its id when
    /// the catalogue lacks it; the villain by its kind's name.
    pub fn actor_name(&self, kind: &ActorKind) -> (r: String)
        requires
            *kind is Villain ==> self.has_villain_def(),
        ensures
            r@ == match *kind {
                ActorKind::Enemy(e) => match self.catalogue.enemies.lookup(e@) {
                    Some(def) => self.catalogue.strings.resolve(def.name.0@),
                    None => e@,
                },
                ActorKind::Villain => self.catalogue.strings.resolve(self.spec_villain().name.0@),
            },
    {
        match kind {
            ActorKind::Enemy(enemy) => match self.catalogue.enemies.get(enemy.as_str()) {
                Some(def) => text_owned(self.catalogue.strings.get(&def.name)),
                None => text_owned(enemy.as_str()),
            },
            ActorKind::Villain => text_owned(self.catalogue.strings.get(&self.villain_def().name)),
        }
    }
}

/// Whether `p` is in `list`.
fn point_listed(list: &Vec<Point>, p: Point) -> (r: bool)
    ensures
        r == list@.contains(p),
{
    let mut k: usize = 0;
    while k < list.len()
        invariant
            k <= list@.len(),
            forall|m: int| 0 <= m < k ==> list@[m] != p,
        decreases list@.len() - k,
    {
        if list[k] == p {
            proof {
                assert(list@[k as int] == p);
            }
            return true;
        }
        k = k + 1;
    }
    false
}

/// A tile an actor could be put on: walkable and unoccupied.
pub open spec fn free_tile(sim: &Sim, map: MapId, p: Point) -> bool {
    &&& spec_walkable(state_terrain(sim.state.terrain_overrides@, sim.world, map, p))
    &&& no_actor_at(sim.state.actors@, map, p)
    &&& no_npc_at(sim.world.npcs@, sim.state.npcs@, map, p)
    &&& !(map == sim.state.current_map && sim.state.hunter.pos == p)
}

/// The free tile farthest from the hunter among the first `n` tiles in
/// row-major order, with its distance; of equal distance the earlier tile
/// is kept. With none free, the hunter's own tile at distance -1.
pub open spec fn farthest_upto(sim: &Sim, map: MapId, n: int) -> (Point, int)
    decreases n,
{
    if n <= 0 {
        (sim.state.hunter.pos, -1)
    } else {
        let (best, d) = farthest_upto(sim, map, n - 1);
        let p = grid_point(n - 1);
        if free_tile(sim, map, p) && chebyshev(sim.state.hunter.pos, p) > d {
            (p, chebyshev(sim.state.hunter.pos, p))
        } else {
            (best, d)
        }
    }
}

impl Sim {
    /// The free tile on `map` farthest from the hunter, scanning row by row;
    /// the hunter's own tile when nothing is free.
    pub fn farthest_free_tile(&self, map: MapId) -> (r: Point)
        requires
            i16::MIN + MAP_WIDTH <= self.state.hunter.pos.x,
            i16::MIN + MAP_HEIGHT <= self.state.hunter.pos.y,
            forall|i: int|
                0 <= i < grid_tiles() ==> terrain_readable(
                    self.state.terrain_overrides@,
                    self.world,
                    map,
                    #[trigger] grid_point(i),
                ),
        ensures
            r == farthest_upto(self, map, grid_tiles()).0,
    {
        let hunter = self.state.hunter.pos;
        let mut best = hunter;
        let mut best_distance: i16 = -1;
        let mut i: usize = 0;
        while i < 640
            invariant
                i <= 640,
                hunter == self.state.hunter.pos,
                i16::MIN + MAP_WIDTH <= hunter.x,
                i16::MIN + MAP_HEIGHT <= hunter.y,
                forall|j: int|
                    0 <= j < grid_tiles() ==> terrain_readable(
                        self.state.terrain_overrides@,
                        self.world,
                        map,
                        #[trigger] grid_point(j),
                    ),
                (best, best_distance as int) == farthest_upto(self, map, i as int),
            decreases 640 - i,
        {
            let point = Point::new((i % 32) as i16, (i / 32) as i16);
            assert(point == grid_point(i as int));
            let free = is_walkable(self.state.terrain(&self.world, map, point)) && !self.state.tile_occupied(
                &self.world,
                map,
                point,
            );
            if free {
                let distance = hunter.distance(point);
                if distance > best_distance {
                    best_distance = distance;
                    best = point;
                }
            }
            i = i + 1;
        }
        best
    }
}

/// The lowercase form of `s`, character by character as Unicode defines it.
pub uninterp spec fn lowercase(s: Seq<char>) -> Seq<char>;

/// `str::to_lowercase` from std. Trusted: the contract claims only that the
/// result is the lowercase form of the text, which depends on the text alone.
#[verifier::external_body]
fn to_lower(s: &str) -> (r: String)
    ensures
        r@ == lowercase(s@),
{
    s.to_lowercase()
}

/// `p` is on the map and in sight now.
pub open spec fn in_sight(state: RunState, p: Point) -> bool {
    spec_in_bounds(p) && state.visible@[tile_index(p)]
}

/// `base` with each of `adds`, in order, appended where not yet present.
pub open spec fn with_all<T>(base: Seq<T>, adds: Seq<T>) -> Seq<T>
    decreases adds.len(),
{
    if adds.len() == 0 {
        base
    } else {
        let before = with_all(base, adds.drop_last());
        if before.contains(adds.last()) {
            before
        } else {
            before.push(adds.last())
        }
    }
}

/// The NPC at index `k` is on `map`, present, in sight, and not yet met.
pub open spec fn meets(sim: &Sim, map: MapId, k: int) -> bool {
    &&& sim.world.npcs@[k].map == map
    &&& sim.state.npcs@[k].alive
    &&& !sim.state.npcs@[k].fled
    &&& in_sight(sim.state, sim.state.npcs@[k].pos)
    &&& !sim.state.met_npcs@.contains(sim.world.npcs@[k].id)
}

/// The ids of the NPCs among the first `n` that the hunter meets now.
pub open spec fn met_upto(sim: &Sim, map: MapId, n: int) -> Seq<NpcId>
    decreases n,
{
    if n <= 0 {
        seq![]
    } else if meets(sim, map, n - 1) {
        met_upto(sim, map, n - 1).push(sim.world.npcs@[n - 1].id)
    } else {
        met_upto(sim, map, n - 1)
    }
}

/// The opportunity at index `k` is on `map`, undiscovered, found by sight,
/// and its anchor is in sight.
pub open spec fn finds(sim: &Sim, map: MapId, k: int) -> bool {
    let o = sim.world.opportunities@[k];
    &&& o.map == map
    &&& !sim.state.discovered@.contains(o.id)
    &&& (o.discovery is Sight || o.discovery is SightOr)
    &&& match o.anchor {
        OpportunityAnchor::Tile(at) => in_sight(sim.state, at),
        OpportunityAnchor::Npc(npc) => {
            let s = sim.state.npcs@[npc.0 as int];
            s.alive && !s.fled && in_sight(sim.state, s.pos)
        },
    }
}

/// The indexes of the opportunities among the first `n` found now.
pub open spec fn found_upto(sim: &Sim, map: MapId, n: int) -> Seq<int>
    decreases n,
{
    if n <= 0 {
        seq![]
    } else if finds(sim, map, n - 1) {
        found_upto(sim, map, n - 1).push(n - 1)
    } else {
        found_upto(sim, map, n - 1)
    }
}

/// The line that marks meeting the NPC with id `id`.
pub open spec fn meeting_line(sim: &Sim, id: NpcId) -> Seq<char> {
    let spec = sim.world.npcs@[id.0 as int];
    let role = match sim.catalogue.npcs.archetypes.lookup(spec.archetype@) {
        Some(def) => sim.catalogue.strings.resolve(def.name.0@),
        None => seq![],
    };
    fill_all(
        sim.catalogue.strings.resolve("log.social.mark-npc"@),
        seq![("npc"@, spec.name@), ("role"@, lowercase(role))],
    )
}

/// The line that marks finding the opportunity at index `k`.
pub open spec fn finding_line(sim: &Sim, k: int) -> Seq<char> {
    fill_all(
        sim.catalogue.strings.resolve("log.discovery.opportunity"@),
        seq![("what"@, sim.world.opportunities@[k].name@)],
    )
}

/// `e` is an entry logged now, of `kind`, reading `text`.
pub open spec fn logged_now(state: RunState, e: LogEvent, kind: EventKind, text: Seq<char>) -> bool {
    e.global_turn == state.clock && e.local_turn == state.local_turn && e.kind == kind && e.text@ == text
}

/// What the discovery pass reads is there to read.
pub open spec fn discovery_readable(sim: &Sim, map: MapId) -> bool {
    &&& sim.state.visible@.len() >= grid_tiles()
    &&& forall|k: int|
        0 <= k < npc_count(sim.world.npcs@, sim.state.npcs@) ==> ((#[trigger] sim.world.npcs@[k]).id.0 as int)
            < sim.world.npcs@.len()
    &&& forall|k: int|
        0 <= k < sim.world.opportunities@.len() ==> match (#[trigger] sim.world.opportunities@[k]).anchor {
            OpportunityAnchor::Npc(npc) => sim.world.opportunities@[k].map == map && !sim.state.discovered@.contains(
                sim.world.opportunities@[k].id,
            ) && (sim.world.opportunities@[k].discovery is Sight || sim.world.opportunities@[k].discovery is SightOr)
                ==> (npc.0 as int) < sim.state.npcs@.len(),
            OpportunityAnchor::Tile(_) => true,
        }
}

fn npc_listed(list: &Vec<NpcId>, id: NpcId) -> (r: bool)
    ensures
        r == list@.contains(id),
{
    let mut k: usize = 0;
    while k < list.len()
        invariant
            k <= list@.len(),
            forall|m: int| 0 <= m < k ==> list@[m] != id,
        decreases list@.len() - k,
    {
        if list[k] == id {
            proof {
                assert(list@[k as int] == id);
            }
            return true;
        }
        k = k + 1;
    }
    false
}

fn opportunity_listed(list: &Vec<OpportunityId>, id: OpportunityId) -> (r: bool)
    ensures
        r == list@.contains(id),
{
    let mut k: usize = 0;
    while k < list.len()
        invariant
            k <= list@.len(),
            forall|m: int| 0 <= m < k ==> list@[m] != id,
        decreases list@.len() - k,
    {
        if list[k] == id {
            proof {
                assert(list@[k as int] == id);
            }
            return true;
        }
        k = k + 1;
    }
    false
}

impl Sim {
    /// Append a line to the run's log, stamped with the current turns.
    pub fn log(&mut self, kind: EventKind, text: String)
        ensures
            final(self).state.log@ == old(self).state.log@.push(
                LogEvent { global_turn: old(self).state.clock, local_turn: old(self).state.local_turn, kind, text },
            ),
            final(self).state.same_but_findings(&old(self).state),
            final(self).state.met_npcs == old(self).state.met_npcs,
            final(self).state.discovered == old(self).state.discovered,
            final(self).catalogue == old(self).catalogue,
            final(self).world == old(self).world,
    {
        let event = LogEvent { global_turn: self.state.clock, local_turn: self.state.local_turn, kind, text };
        self.state.log.push(event);
    }

    /// Meet the NPCs in sight on `map` and discover the opportunities whose
    /// anchors are in sight, logging each when `announce` is set.
    pub fn discovery_pass(&mut self, announce: bool)
        requires
            discovery_readable(&*old(self), old(self).state.current_map),
        ensures
            ({
                let map = old(self).state.current_map;
                let met = met_upto(&*old(self), map, npc_count(old(self).world.npcs@, old(self).state.npcs@));
                let found = found_upto(&*old(self), map, old(self).world.opportunities@.len() as int);
                let n0 = old(self).state.log@.len();
                &&& final(self).state.met_npcs@ == with_all(old(self).state.met_npcs@, met)
                &&& final(self).state.discovered@ == with_all(
                    old(self).state.discovered@,
                    found.map_values(|k: int| old(self).world.opportunities@[k].id),
                )
                &&& !announce ==> final(self).state.log == old(self).state.log
                &&& announce ==> {
                    &&& final(self).state.log@.len() == n0 + met.len() + found.len()
                    &&& final(self).state.log@.subrange(0, n0 as int) == old(self).state.log@
                    &&& forall|j: int|
                        0 <= j < met.len() ==> logged_now(
                            old(self).state,
                            #[trigger] final(self).state.log@[n0 + j],
                            EventKind::Social,
                            meeting_line(&*old(self), met[j]),
                        )
                    &&& forall|j: int|
                        0 <= j < found.len() ==> logged_now(
                            old(self).state,
                            #[trigger] final(self).state.log@[n0 + met.len() + j],
                            EventKind::Clue,
                            finding_line(&*old(self), found[j]),
                        )
                }
            }),
            final(self).state.same_but_findings(&old(self).state),
            final(self).catalogue == old(self).catalogue,
            final(self).world == old(self).world,
    {
        let ghost start = *self;
        let map = self.state.current_map;
        let n = if self.world.npcs.len() <= self.state.npcs.len() {
            self.world.npcs.len()
        } else {
            self.state.npcs.len()
        };
        let mut met: Vec<NpcId> = Vec::new();
        let mut k: usize = 0;
        while k < n
            invariant
                k <= n,
                n == npc_count(start.world.npcs@, start.state.npcs@),
                *self == start,
                map == start.state.current_map,
                discovery_readable(&start, map),
                met@ == met_upto(&start, map, k as int),
            decreases n - k,
        {
            let spec = &self.world.npcs[k];
            let npc = &self.state.npcs[k];
            if spec.map == map && npc.alive && !npc.fled && self.state.is_visible(npc.pos) && !npc_listed(
                &self.state.met_npcs,
                spec.id,
            ) {
                met.push(spec.id);
            }
            k = k + 1;
        }
        let mut found: Vec<usize> = Vec::new();
        let opps_len = self.world.opportunities.len();
        let mut k: usize = 0;
        while k < opps_len
            invariant
                k <= opps_len,
                opps_len == start.world.opportunities@.len(),
                *self == start,
                map == start.state.current_map,
                discovery_readable(&start, map),
                found@.map_values(|f: usize| f as int) == found_upto(&start, map, k as int),
            decreases opps_len - k,
        {
            let o = &self.world.opportunities[k];
            let sight_allowed = match o.discovery {
                DiscoveryRule::Sight => true,
                DiscoveryRule::SightOr(_) => true,
                DiscoveryRule::RevealedBy(_) => false,
            };
            if o.map == map && !opportunity_listed(&self.state.discovered, o.id) && sight_allowed {
                let seen = match o.anchor {
                    OpportunityAnchor::Tile(at) => self.state.is_visible(at),
                    OpportunityAnchor::Npc(npc) => {
                        let s = &self.state.npcs[npc.0 as usize];
                        s.alive && !s.fled && self.state.is_visible(s.pos)
                    },
                };
                if seen {
                    found.push(k);
                    proof {
                        assert(found@.map_values(|f: usize| f as int) =~= found_upto(&start, map, k as int).push(
                            k as int,
                        ));
                    }
                }
            }
            k = k + 1;
        }
        let ghost met_ids = met@;
        let ghost found_ks = found@.map_values(|f: usize| f as int);
        let ghost n0 = start.state.log@.len();
        let mut j: usize = 0;
        while j < met.len()
            invariant
                j <= met@.len(),
                met@ == met_ids,
                met_ids == met_upto(&start, map, npc_count(start.world.npcs@, start.state.npcs@)),
                discovery_readable(&start, map),
                self.catalogue == start.catalogue,
                self.world == start.world,
                self.state.same_but_findings(&start.state),
                self.state.discovered == start.state.discovered,
                self.state.met_npcs@ == with_all(start.state.met_npcs@, met_ids.take(j as int)),
                !announce ==> self.state.log == start.state.log,
                announce ==> self.state.log@.len() == n0 + j,
                announce ==> self.state.log@.subrange(0, n0 as int) == start.state.log@,
                announce ==> forall|m: int|
                    0 <= m < j ==> logged_now(
                        start.state,
                        #[trigger] self.state.log@[n0 + m],
                        EventKind::Social,
                        meeting_line(&start, met_ids[m]),
                    ),
            decreases met@.len() - j,
        {
            let id = met[j];
            proof {
                assert(met_ids.take(j + 1).drop_last() =~= met_ids.take(j as int));
                lemma_met_are_npcs(&start, map, npc_count(start.world.npcs@, start.state.npcs@), j as int);
            }
            if !npc_listed(&self.state.met_npcs, id) {
                self.state.met_npcs.push(id);
            }
            if announce {
                let spec = self.world.npc(id);
                let ghost role_text = match start.catalogue.npcs.archetypes.lookup(
                    start.world.npcs@[id.0 as int].archetype@,
                ) {
                    Some(def) => start.catalogue.strings.resolve(def.name.0@),
                    None => Seq::<char>::empty(),
                };
                assert(*spec == start.world.npcs@[id.0 as int]);
                let role = match self.catalogue.npcs.archetypes.get(spec.archetype.as_str()) {
                    Some(def) => to_lower(self.catalogue.strings.get(&def.name)),
                    None => {
                        proof {
                            reveal_strlit("");
                            assert(""@ =~= Seq::<char>::empty());
                        }
                        to_lower("")
                    },
                };
                assert(role@ == lowercase(role_text));
                let key = StringId(text_owned("log.social.mark-npc"));
                let args = [("npc", spec.name.as_str()), ("role", role.as_str())];
                let line = self.catalogue.strings.fill(&key, &args);
                proof {
                    assert(args_view(args@) =~= seq![("npc"@, spec.name@), ("role"@, role@)]);
                    assert(line@ == meeting_line(&start, id));
                }
                let ghost before_log = self.state.log@;
                self.log(EventKind::Social, line);
                proof {
                    assert(self.state.log@.subrange(0, n0 as int) =~= before_log.subrange(0, n0 as int));
                    assert(logged_now(start.state, self.state.log@[n0 + j], EventKind::Social, meeting_line(&start, met_ids[j as int])));
                    assert forall|m: int| 0 <= m < j implies logged_now(
                        start.state,
                        #[trigger] self.state.log@[n0 + m],
                        EventKind::Social,
                        meeting_line(&start, met_ids[m]),
                    ) by {
                        assert(self.state.log@[n0 + m] == before_log[n0 + m]);
                    }
                }
            }
            j = j + 1;
        }
        proof {
            assert(met_ids.take(met_ids.len() as int) =~= met_ids);
        }
        let ghost n1 = self.state.log@.len();
        let mut j: usize = 0;
        while j < found.len()
            invariant
                j <= found@.len(),
                found@.map_values(|f: usize| f as int) == found_ks,
                found_ks == found_upto(&start, map, start.world.opportunities@.len() as int),
                self.catalogue == start.catalogue,
                self.world == start.world,
                self.state.same_but_findings(&start.state),
                self.state.met_npcs@ == with_all(start.state.met_npcs@, met_ids),
                self.state.discovered@ == with_all(
                    start.state.discovered@,
                    found_ks.take(j as int).map_values(|k: int| start.world.opportunities@[k].id),
                ),
                !announce ==> self.state.log == start.state.log,
                announce ==> n1 == n0 + met_ids.len(),
                announce ==> self.state.log@.len() == n1 + j,
                announce ==> self.state.log@.subrange(0, n0 as int) == start.state.log@,
                announce ==> forall|m: int|
                    0 <= m < met_ids.len() ==> logged_now(
                        start.state,
                        #[trigger] self.state.log@[n0 + m],
                        EventKind::Social,
                        meeting_line(&start, met_ids[m]),
                    ),
                announce ==> forall|m: int|
                    0 <= m < j ==> logged_now(
                        start.state,
                        #[trigger] self.state.log@[n1 + m],
                        EventKind::Clue,
                        finding_line(&start, found_ks[m]),
                    ),
            decreases found@.len() - j,
        {
            let k = found[j];
            proof {
                lemma_found_are_opportunities(&start, map, start.world.opportunities@.len() as int, j as int);
                assert(found_ks.take(j + 1).map_values(|k: int| start.world.opportunities@[k].id).drop_last()
                    =~= found_ks.take(j as int).map_values(|k: int| start.world.opportunities@[k].id));
            }
            let id = self.world.opportunities[k].id;
            if !opportunity_listed(&self.state.discovered, id) {
                self.state.discovered.push(id);
            }
            if announce {
                let key = StringId(text_owned("log.discovery.opportunity"));
                let args = [("what", self.world.opportunities[k].name.as_str())];
                let line = self.catalogue.strings.fill(&key, &args);
                proof {
                    assert(args_view(args@) =~= seq![("what"@, start.world.opportunities@[k as int].name@)]);
                    assert(line@ == finding_line(&start, found_ks[j as int]));
                }
                let ghost before_log = self.state.log@;
                self.log(EventKind::Clue, line);
                proof {
                    assert(self.state.log@.subrange(0, n0 as int) =~= before_log.subrange(0, n0 as int));
                    assert forall|m: int| 0 <= m < met_ids.len() implies logged_now(
                        start.state,
                        #[trigger] self.state.log@[n0 + m],
                        EventKind::Social,
                        meeting_line(&start, met_ids[m]),
                    ) by {
                        assert(self.state.log@[n0 + m] == before_log[n0 + m]);
                    }
                    assert forall|m: int| 0 <= m < j + 1 implies logged_now(
                        start.state,
                        #[trigger] self.state.log@[n1 + m],
                        EventKind::Clue,
                        finding_line(&start, found_ks[m]),
                    ) by {
                        if m < j {
                            assert(self.state.log@[n1 + m] == before_log[n1 + m]);
                        }
                    }
                }
            }
            j = j + 1;
        }
        proof {
            assert(found_ks.take(found_ks.len() as int) =~= found_ks);
        }
    }
}

proof fn lemma_met_are_npcs(sim: &Sim, map: MapId, n: int, j: int)
    requires
        0 <= n <= npc_count(sim.world.npcs@, sim.state.npcs@),
        discovery_readable(sim, map),
        0 <= j < met_upto(sim, map, n).len(),
    ensures
        (met_upto(sim, map, n)[j].0 as int) < sim.world.npcs@.len(),
    decreases n,
{
    if n > 0 {
        let prev = met_upto(sim, map, n - 1);
        if j < prev.len() {
            lemma_met_are_npcs(sim, map, n - 1, j);
            if meets(sim, map, n - 1) {
                assert(met_upto(sim, map, n)[j] == prev[j]);
            }
        } else {
            assert(sim.world.npcs@[n - 1].id.0 < sim.world.npcs@.len());
        }
    }
}

proof fn lemma_found_are_opportunities(sim: &Sim, map: MapId, n: int, j: int)
    requires
        0 <= n <= sim.world.opportunities@.len(),
        0 <= j < found_upto(sim, map, n).len(),
    ensures
        0 <= found_upto(sim, map, n)[j] < sim.world.opportunities@.len(),
    decreases n,
{
    if n > 0 {
        let prev = found_upto(sim, map, n - 1);
        if j < prev.len() {
            lemma_found_are_opportunities(sim, map, n - 1, j);
            if finds(sim, map, n - 1) {
                assert(found_upto(sim, map, n)[j] == prev[j]);
            }
        }
    }
}

/// The first manoeuvre of `ms` with id `id` is at index `k`.
pub open spec fn first_manoeuvre(ms: Seq<ManoeuvreDef>, id: Seq<char>, k: int) -> bool {
    &&& 0 <= k < ms.len()
    &&& ms[k].id@ == id
    &&& forall|m: int| 0 <= m < k ==> (#[trigger] ms[m]).id@ != id
}

/// Stamina the first manoeuvre with id `id` costs; 0 when there is none.
pub open spec fn manoeuvre_cost_of(ms: Seq<ManoeuvreDef>, id: Seq<char>) -> u8 {
    if exists|k: int| first_manoeuvre(ms, id, k) {
        ms[choose|k: int| first_manoeuvre(ms, id, k)].stamina_cost
    } else {
        0
    }
}

/// Tiles the first manoeuvre named sprint moves when it is a dash; 2 when
/// there is none, or it is not a dash.
pub open spec fn sprint_tiles_of(ms: Seq<ManoeuvreDef>) -> u8 {
    if exists|k: int| first_manoeuvre(ms, "sprint"@, k) {
        match ms[choose|k: int| first_manoeuvre(ms, "sprint"@, k)].effect {
            ManoeuvreEffect::Dash { tiles } => tiles,
            _ => 2,
        }
    } else {
        2
    }
}

proof fn lemma_first_manoeuvre_unique(ms: Seq<ManoeuvreDef>, id: Seq<char>, k: int)
    requires
        0 <= k < ms.len(),
        ms[k].id@ == id,
        forall|m: int| 0 <= m < k ==> (#[trigger] ms[m]).id@ != id,
    ensures
        first_manoeuvre(ms, id, k),
        (choose|j: int| first_manoeuvre(ms, id, j)) == k,
{
    assert(first_manoeuvre(ms, id, k));
    assert forall|j: int| first_manoeuvre(ms, id, j) implies j == k by {
        if j < k {
            assert(ms[j].id@ != id);
        } else if j > k {
            assert(ms[k].id@ != id);
        }
    }
}

/// A living actor on the current map stands next to the hunter.
pub open spec fn beside_hunter(state: RunState, a: Actor) -> bool {
    a.map == state.current_map && a.hp > 0 && a.pos != state.hunter.pos && chebyshev(state.hunter.pos, a.pos) <= 1
}

/// Every living actor on the current map is within the grid arithmetic of
/// the hunter.
pub open spec fn actors_measurable(state: RunState) -> bool {
    forall|k: int|
        0 <= k < state.actors@.len() && (#[trigger] state.actors@[k]).map == state.current_map
            && state.actors@[k].hp > 0 ==> diff_fits(state.hunter.pos, state.actors@[k].pos)
}

impl Sim {
    /// Stamina a manoeuvre costs, from the hunter's profile; an unknown one
    /// costs nothing.
    pub fn manoeuvre_cost(&self, id: &str) -> (r: u8)
        ensures
            r == manoeuvre_cost_of(self.catalogue.hunter.manoeuvres@, id@),
    {
        let ms = &self.catalogue.hunter.manoeuvres;
        let mut k: usize = 0;
        while k < ms.len()
            invariant
                k <= ms@.len(),
                *ms == self.catalogue.hunter.manoeuvres,
                forall|m: int| 0 <= m < k ==> (#[trigger] ms@[m]).id@ != id@,
            decreases ms@.len() - k,
        {
            if text_eq(ms[k].id.as_str(), id) {
                proof {
                    lemma_first_manoeuvre_unique(ms@, id@, k as int);
                }
                return ms[k].stamina_cost;
            }
            k = k + 1;
        }
        0
    }

    /// Tiles the sprint manoeuvre moves, from the hunter's profile: 2 when
    /// the profile has no sprint, or its sprint is not a dash.
    pub fn sprint_tiles(&self) -> (r: u8)
        ensures
            r == sprint_tiles_of(self.catalogue.hunter.manoeuvres@),
    {
        let ms = &self.catalogue.hunter.manoeuvres;
        let mut k: usize = 0;
        while k < ms.len()
            invariant
                k <= ms@.len(),
                *ms == self.catalogue.hunter.manoeuvres,
                forall|m: int| 0 <= m < k ==> (#[trigger] ms@[m]).id@ != "sprint"@,
            decreases ms@.len() - k,
        {
            if text_eq(ms[k].id.as_str(), "sprint") {
                proof {
                    lemma_first_manoeuvre_unique(ms@, "sprint"@, k as int);
                }
                return match ms[k].effect {
                    ManoeuvreEffect::Dash { tiles } => tiles,
                    _ => 2,
                };
            }
            k = k + 1;
        }
        2
    }

    /// Whether the villain stands next to the hunter.
    pub fn adjacent_villain(&self) -> (r: bool)
        requires
            actors_measurable(self.state),
        ensures
            r == exists|k: int|
                0 <= k < self.state.actors@.len() && beside_hunter(self.state, #[trigger] self.state.actors@[k])
                    && self.state.actors@[k].kind is Villain,
    {
        let hunter = self.state.hunter.pos;
        let mut k: usize = 0;
        while k < self.state.actors.len()
            invariant
                k <= self.state.actors@.len(),
                hunter == self.state.hunter.pos,
                actors_measurable(self.state),
                forall|m: int|
                    0 <= m < k ==> !(beside_hunter(self.state, #[trigger] self.state.actors@[m])
                        && self.state.actors@[m].kind is Villain),
            decreases self.state.actors@.len() - k,
        {
            let a = &self.state.actors[k];
            if a.map == self.state.current_map && a.hp > 0 {
                let villain = match a.kind {
                    ActorKind::Villain => true,
                    ActorKind::Enemy(_) => false,
                };
                if villain && hunter.is_adjacent(a.pos) {
                    return true;
                }
            }
            k = k + 1;
        }
        false
    }

    /// The hostile next to the hunter with the lowest id, as a target; of
    /// equal ids the first listed.
    pub fn adjacent_hostile(&self) -> (r: Option<Target>)
        requires
            actors_measurable(self.state),
        ensures
            r is None <==> forall|k: int|
                0 <= k < self.state.actors@.len() ==> !beside_hunter(self.state, #[trigger] self.state.actors@[k]),
            r matches Some(t) ==> exists|k: int|
                0 <= k < self.state.actors@.len() && beside_hunter(self.state, self.state.actors@[k]) && t
                    == Target::Actor(self.state.actors@[k].id) && forall|m: int|
                    0 <= m < self.state.actors@.len() && beside_hunter(self.state, #[trigger] self.state.actors@[m])
                        ==> self.state.actors@[k].id.0 <= self.state.actors@[m].id.0,
    {
        let hunter = self.state.hunter.pos;
        let mut best: Option<ActorId> = None;
        let ghost mut best_k: int = -1;
        let mut k: usize = 0;
        while k < self.state.actors.len()
            invariant
                k <= self.state.actors@.len(),
                hunter == self.state.hunter.pos,
                actors_measurable(self.state),
                best is None <==> forall|m: int| 0 <= m < k ==> !beside_hunter(self.state, #[trigger] self.state.actors@[m]),
                best matches Some(id) ==> 0 <= best_k < k && beside_hunter(self.state, self.state.actors@[best_k])
                    && id == self.state.actors@[best_k].id && forall|m: int|
                    0 <= m < k && beside_hunter(self.state, #[trigger] self.state.actors@[m]) ==> id.0
                        <= self.state.actors@[m].id.0,
            decreases self.state.actors@.len() - k,
        {
            let a = &self.state.actors[k];
            if a.map == self.state.current_map && a.hp > 0 && hunter.is_adjacent(a.pos) {
                match best {
                    None => {
                        best = Some(a.id);
                        proof {
                            best_k = k as int;
                        }
                    },
                    Some(id) => {
                        if a.id.0 < id.0 {
                            best = Some(a.id);
                            proof {
                                best_k = k as int;
                            }
                        }
                    },
                }
            }
            k = k + 1;
        }
        match best {
            Some(id) => Some(Target::Actor(id)),
            None => None,
        }
    }
}

/// The order targets are listed in: nearest first, then by row, then by
/// column, as one number.
pub open spec fn aim_key(hunter: Point, at: Point) -> int {
    chebyshev(hunter, at) * 4294967296 + (at.y + 32768) * 65536 + (at.x + 32768)
}

/// The actor is a living hostile on the current map, in sight.
pub open spec fn aimable(state: RunState, a: Actor) -> bool {
    a.map == state.current_map && a.hp > 0 && in_sight(state, a.pos)
}

/// The aimable actors among the first `n`, in the order they are listed.
pub open spec fn aimable_upto(state: RunState, n: int) -> Seq<(Target, Point)>
    decreases n,
{
    if n <= 0 {
        seq![]
    } else if aimable(state, state.actors@[n - 1]) {
        aimable_upto(state, n - 1).push((Target::Actor(state.actors@[n - 1].id), state.actors@[n - 1].pos))
    } else {
        aimable_upto(state, n - 1)
    }
}

/// Entry `m` of `c` comes before entry `k` once sorted: a smaller key, or
/// an equal one listed earlier.
pub open spec fn sorts_before(c: Seq<(Target, Point)>, hunter: Point, m: int, k: int) -> bool {
    aim_key(hunter, c[m].1) < aim_key(hunter, c[k].1) || (aim_key(hunter, c[m].1) == aim_key(hunter, c[k].1) && m < k)
}

/// How many of the first `n` entries of `c` sort before entry `k`.
pub open spec fn rank_upto(c: Seq<(Target, Point)>, hunter: Point, k: int, n: int) -> int
    decreases n,
{
    if n <= 0 {
        0
    } else {
        rank_upto(c, hunter, k, n - 1) + if sorts_before(c, hunter, n - 1, k) {
            1int
        } else {
            0int
        }
    }
}

/// How many of the first `n` entries of `c` have a key no larger than `key`.
pub open spec fn at_most_upto(c: Seq<(Target, Point)>, hunter: Point, key: int, n: int) -> int
    decreases n,
{
    if n <= 0 {
        0
    } else {
        at_most_upto(c, hunter, key, n - 1) + if aim_key(hunter, c[n - 1].1) <= key {
            1int
        } else {
            0int
        }
    }
}

proof fn lemma_rank_against_insert(c: Seq<(Target, Point)>, hunter: Point, k: int, i: int, n: int)
    requires
        0 <= k < i,
        0 <= n <= i,
    ensures
        aim_key(hunter, c[k].1) <= aim_key(hunter, c[i].1) ==> rank_upto(c, hunter, k, n) + (if k < n {
            1int
        } else {
            0int
        }) <= at_most_upto(c, hunter, aim_key(hunter, c[i].1), n),
        aim_key(hunter, c[k].1) > aim_key(hunter, c[i].1) ==> at_most_upto(c, hunter, aim_key(hunter, c[i].1), n)
            <= rank_upto(c, hunter, k, n),
        0 <= rank_upto(c, hunter, k, n) <= n,
        0 <= at_most_upto(c, hunter, aim_key(hunter, c[i].1), n) <= n,
    decreases n,
{
    if n > 0 {
        lemma_rank_against_insert(c, hunter, k, i, n - 1);
    }
}

proof fn lemma_rank_of_new(c: Seq<(Target, Point)>, hunter: Point, i: int, n: int)
    requires
        0 <= n <= i,
    ensures
        rank_upto(c, hunter, i, n) == at_most_upto(c, hunter, aim_key(hunter, c[i].1), n),
    decreases n,
{
    if n > 0 {
        lemma_rank_of_new(c, hunter, i, n - 1);
    }
}

/// The sort key of a target at `at`, as a machine integer.
fn aim_key_of(hunter: Point, at: Point) -> (r: i64)
    requires
        diff_fits(hunter, at),
    ensures
        r == aim_key(hunter, at),
{
    let d = hunter.distance(at) as i64;
    d * 4294967296 + (at.y as i64 + 32768) * 65536 + (at.x as i64 + 32768)
}

impl Sim {
    /// Hostiles in sight on the current map, as targets with their tiles:
    /// nearest first, then by row, then by column; of equal place, in the
    /// order the run lists them.
    pub fn fire_targets(&self) -> (r: Vec<(Target, Point)>)
        requires
            self.state.visible@.len() >= 640,
            actors_measurable(self.state),
        ensures
            r@.len() == aimable_upto(self.state, self.state.actors@.len() as int).len(),
            forall|k: int|
                0 <= k < aimable_upto(self.state, self.state.actors@.len() as int).len() ==> r@[rank_upto(
                    aimable_upto(self.state, self.state.actors@.len() as int),
                    self.state.hunter.pos,
                    k,
                    aimable_upto(self.state, self.state.actors@.len() as int).len() as int,
                )] == #[trigger] aimable_upto(self.state, self.state.actors@.len() as int)[k],
    {
        let hunter = self.state.hunter.pos;
        let ghost state = self.state;
        let mut cands: Vec<(Target, Point)> = Vec::new();
        let mut keys: Vec<i64> = Vec::new();
        let mut a: usize = 0;
        while a < self.state.actors.len()
            invariant
                a <= state.actors@.len(),
                state == self.state,
                hunter == state.hunter.pos,
                state.visible@.len() >= 640,
                actors_measurable(state),
                cands@ == aimable_upto(state, a as int),
                keys@.len() == cands@.len(),
                forall|m: int| 0 <= m < cands@.len() ==> #[trigger] keys@[m] == aim_key(hunter, cands@[m].1),
            decreases state.actors@.len() - a,
        {
            let actor = &self.state.actors[a];
            if actor.map == self.state.current_map && actor.hp > 0 && self.state.is_visible(actor.pos) {
                let key = aim_key_of(hunter, actor.pos);
                cands.push((Target::Actor(actor.id), actor.pos));
                keys.push(key);
            }
            a = a + 1;
        }
        let ghost c = cands@;
        let n = cands.len();
        let mut out: Vec<(Target, Point)> = Vec::new();
        let mut i: usize = 0;
        while i < n
            invariant
                i <= n,
                n == c.len(),
                cands@ == c,
                keys@.len() == n,
                forall|m: int| 0 <= m < n ==> #[trigger] keys@[m] == aim_key(hunter, c[m].1),
                out@.len() == i,
                forall|k: int| 0 <= k < i ==> out@[rank_upto(c, hunter, k, i as int)] == #[trigger] c[k],
            decreases n - i,
        {
            let key = keys[i];
            let mut p: usize = 0;
            let mut m: usize = 0;
            while m < i
                invariant
                    m <= i < n,
                    keys@.len() == n,
                    forall|j: int| 0 <= j < n ==> #[trigger] keys@[j] == aim_key(hunter, c[j].1),
                    key == aim_key(hunter, c[i as int].1),
                    p == at_most_upto(c, hunter, key as int, m as int),
                    p <= m,
                decreases i - m,
            {
                if keys[m] <= key {
                    p = p + 1;
                }
                m = m + 1;
            }
            let ghost before = out@;
            proof {
                lemma_rank_of_new(c, hunter, i as int, i as int);
                assert forall|k: int| 0 <= k < i implies (aim_key(hunter, c[k].1) <= aim_key(hunter, c[i as int].1)
                    ==> rank_upto(c, hunter, k, i as int) < p) && (aim_key(hunter, c[k].1) > aim_key(
                    hunter,
                    c[i as int].1,
                ) ==> p <= rank_upto(c, hunter, k, i as int)) && 0 <= rank_upto(c, hunter, k, i as int) < i by {
                    lemma_rank_against_insert(c, hunter, k, i as int, i as int);
                    lemma_rank_bound(c, hunter, k, i as int);
                }
            }
            out.insert(p, cands[i]);
            proof {
                assert forall|k: int| 0 <= k < i + 1 implies out@[rank_upto(c, hunter, k, i + 1)] == #[trigger] c[k] by {
                    if k < i {
                        let rk = rank_upto(c, hunter, k, i as int);
                        assert(rank_upto(c, hunter, k, i + 1) == rk + if sorts_before(c, hunter, i as int, k) {
                            1int
                        } else {
                            0int
                        });
                        assert(before[rk] == c[k]);
                        if aim_key(hunter, c[k].1) <= aim_key(hunter, c[i as int].1) {
                            assert(out@[rk] == before[rk]);
                        } else {
                            assert(out@[rk + 1] == before[rk]);
                        }
                    } else {
                        assert(rank_upto(c, hunter, i as int, i + 1) == rank_upto(c, hunter, i as int, i as int));
                    }
                }
            }
            i = i + 1;
        }
        out
    }
}

pub(crate) proof fn lemma_rank_bound(c: Seq<(Target, Point)>, hunter: Point, k: int, n: int)
    requires
        0 <= k < n,
    ensures
        0 <= rank_upto(c, hunter, k, n) < n,
    decreases n,
{
    if n - 1 > k {
        lemma_rank_bound(c, hunter, k, n - 1);
    } else {
        lemma_rank_nonneg_upto(c, hunter, k, n - 1);
    }
}

proof fn lemma_rank_nonneg_upto(c: Seq<(Target, Point)>, hunter: Point, k: int, n: int)
    requires
        0 <= n,
    ensures
        0 <= rank_upto(c, hunter, k, n) <= n,
    decreases n,
{
    if n > 0 {
        lemma_rank_nonneg_upto(c, hunter, k, n - 1);
    }
}

/// How many of the first `n` keys sort before key `k`: smaller, or equal and
/// earlier.
pub open spec fn key_rank(keys: Seq<int>, k: int, n: int) -> int
    decreases n,
{
    if n <= 0 {
        0
    } else {
        key_rank(keys, k, n - 1) + if keys[n - 1] < keys[k] || (keys[n - 1] == keys[k] && n - 1 < k) {
            1int
        } else {
            0int
        }
    }
}

/// How many of the first `n` keys are no larger than `key`.
pub open spec fn key_at_most(keys: Seq<int>, key: int, n: int) -> int
    decreases n,
{
    if n <= 0 {
        0
    } else {
        key_at_most(keys, key, n - 1) + if keys[n - 1] <= key {
            1int
        } else {
            0int
        }
    }
}

proof fn lemma_key_rank_facts(keys: Seq<int>, k: int, i: int, n: int)
    requires
        0 <= k <= i,
        0 <= n <= i,
    ensures
        k < i && keys[k] <= keys[i] ==> key_rank(keys, k, n) + (if k < n {
            1int
        } else {
            0int
        }) <= key_at_most(keys, keys[i], n),
        k < i && keys[k] > keys[i] ==> key_at_most(keys, keys[i], n) <= key_rank(keys, k, n),
        k == i ==> key_rank(keys, k, n) == key_at_most(keys, keys[i], n),
        0 <= key_rank(keys, k, n) <= n,
        k < n ==> key_rank(keys, k, n) < n,
    decreases n,
{
    if n > 0 {
        lemma_key_rank_facts(keys, k, i, n - 1);
    }
}

/// `items` in order of `keys`, smallest first; items of equal key keep
/// their order.
fn stable_sort_by_keys<T>(items: Vec<T>, keys: &Vec<i64>) -> (r: Vec<T>)
    requires
        keys@.len() == items@.len(),
    ensures
        r@.len() == items@.len(),
        forall|k: int|
            0 <= k < items@.len() ==> r@[key_rank(keys@.map_values(|x: i64| x as int), k, items@.len() as int)]
                == #[trigger] items@[k],
{
    let ghost orig = items@;
    let ghost ks = keys@.map_values(|x: i64| x as int);
    let n = items.len();
    let mut items = items;
    let mut rev: Vec<T> = Vec::new();
    while items.len() > 0
        invariant
            items@.len() + rev@.len() == n,
            n == orig.len(),
            items@ == orig.subrange(0, items@.len() as int),
            forall|j: int| 0 <= j < rev@.len() ==> #[trigger] rev@[j] == orig[n - 1 - j],
        decreases items@.len(),
    {
        let x = items.pop().unwrap();
        rev.push(x);
        proof {
            assert(items@ =~= orig.subrange(0, items@.len() as int));
        }
    }
    let mut out: Vec<T> = Vec::new();
    let mut i: usize = 0;
    while i < n
        invariant
            i <= n,
            n == orig.len(),
            keys@.len() == n,
            ks == keys@.map_values(|x: i64| x as int),
            rev@.len() == n - i,
            forall|j: int| 0 <= j < rev@.len() ==> #[trigger] rev@[j] == orig[n - 1 - j],
            out@.len() == i,
            forall|k: int| 0 <= k < i ==> out@[key_rank(ks, k, i as int)] == #[trigger] orig[k],
        decreases n - i,
    {
        let x = rev.pop().unwrap();
        let key = keys[i];
        let mut p: usize = 0;
        let mut m: usize = 0;
        while m < i
            invariant
                m <= i < n,
                keys@.len() == n,
                ks == keys@.map_values(|x: i64| x as int),
                key == ks[i as int],
                p == key_at_most(ks, key as int, m as int),
                p <= m,
            decreases i - m,
        {
            if keys[m] <= key {
                p = p + 1;
            }
            m = m + 1;
        }
        let ghost before = out@;
        proof {
            lemma_key_rank_facts(ks, i as int, i as int, i as int);
            assert forall|k: int| 0 <= k < i implies (ks[k] <= ks[i as int] ==> key_rank(ks, k, i as int) < p) && (
            ks[k] > ks[i as int] ==> p <= key_rank(ks, k, i as int)) && 0 <= key_rank(ks, k, i as int) < i by {
                lemma_key_rank_facts(ks, k, i as int, i as int);
            }
        }
        out.insert(p, x);
        proof {
            assert forall|k: int| 0 <= k < i + 1 implies out@[key_rank(ks, k, i + 1)] == #[trigger] orig[k] by {
                if k < i {
                    let rk = key_rank(ks, k, i as int);
                    assert(before[rk] == orig[k]);
                    if ks[k] <= ks[i as int] {
                        assert(out@[rk] == before[rk]);
                    } else {
                        assert(out@[rk + 1] == before[rk]);
                    }
                }
            }
        }
        i = i + 1;
    }
    out
}

/// What a sight entry says, as plain values.
pub open spec fn sight_view(e: SightEntry) -> (Seq<char>, Seq<char>, Point, int, bool) {
    (e.name@, e.detail@, e.at, e.distance as int, e.hostile)
}

/// The order the in-sight panel lists entries in: hostiles before people,
/// then nearest first, then by row and column.
pub open spec fn sight_key(hunter: Point, v: (Seq<char>, Seq<char>, Point, int, bool)) -> int {
    (if v.4 {
        0int
    } else {
        1int
    }) * 281474976710656 + aim_key(hunter, v.2)
}

/// How an actor is named.
pub open spec fn actor_name_text(sim: &Sim, kind: ActorKind) -> Seq<char> {
    match kind {
        ActorKind::Enemy(e) => match sim.catalogue.enemies.lookup(e@) {
            Some(def) => sim.catalogue.strings.resolve(def.name.0@),
            None => e@,
        },
        ActorKind::Villain => sim.catalogue.strings.resolve(sim.spec_villain().name.0@),
    }
}

/// The in-sight entry for a hostile actor.
pub open spec fn actor_sight(sim: &Sim, a: Actor) -> (Seq<char>, Seq<char>, Point, int, bool) {
    let strings = sim.catalogue.strings;
    let health = fill_all(
        strings.resolve("ui.sight.health"@),
        seq![("current"@, decimal(a.hp as nat)), ("max"@, decimal(a.max_hp as nat))],
    );
    let note = if a.trapped > 0 {
        strings.resolve("ui.sight.held"@)
    } else if a.kind is Villain && sim.spec_vulnerable(a.id) {
        strings.resolve("ui.sight.vulnerable"@)
    } else {
        seq![]
    };
    (actor_name_text(sim, a.kind), health + note, a.pos, chebyshev(sim.state.hunter.pos, a.pos), true)
}

/// The in-sight entries of hostile actors among the first `n`, in order.
pub open spec fn actor_sights(sim: &Sim, n: int) -> Seq<(Seq<char>, Seq<char>, Point, int, bool)>
    decreases n,
{
    if n <= 0 {
        seq![]
    } else if aimable(sim.state, sim.state.actors@[n - 1]) {
        actor_sights(sim, n - 1).push(actor_sight(sim, sim.state.actors@[n - 1]))
    } else {
        actor_sights(sim, n - 1)
    }
}

/// The NPC at index `k` is on the current map, present, and in sight.
pub open spec fn npc_in_sight(sim: &Sim, k: int) -> bool {
    &&& sim.world.npcs@[k].map == sim.state.current_map
    &&& sim.state.npcs@[k].alive
    &&& !sim.state.npcs@[k].fled
    &&& in_sight(sim.state, sim.state.npcs@[k].pos)
}

/// The in-sight entry for the NPC at index `k`: its name and role.
pub open spec fn npc_sight(sim: &Sim, k: int) -> (Seq<char>, Seq<char>, Point, int, bool) {
    let spec = sim.world.npcs@[k];
    let role = match sim.catalogue.npcs.archetypes.lookup(spec.archetype@) {
        Some(def) => sim.catalogue.strings.resolve(def.name.0@),
        None => seq![],
    };
    (spec.name@, role, sim.state.npcs@[k].pos, chebyshev(sim.state.hunter.pos, sim.state.npcs@[k].pos), false)
}

/// The in-sight entries of NPCs among the first `n`, in order.
pub open spec fn npc_sights(sim: &Sim, n: int) -> Seq<(Seq<char>, Seq<char>, Point, int, bool)>
    decreases n,
{
    if n <= 0 {
        seq![]
    } else if npc_in_sight(sim, n - 1) {
        npc_sights(sim, n - 1).push(npc_sight(sim, n - 1))
    } else {
        npc_sights(sim, n - 1)
    }
}

/// Everything in sight, before ordering: hostiles, then people.
pub open spec fn sights(sim: &Sim) -> Seq<(Seq<char>, Seq<char>, Point, int, bool)> {
    actor_sights(sim, sim.state.actors@.len() as int) + npc_sights(
        sim,
        npc_count(sim.world.npcs@, sim.state.npcs@),
    )
}

/// What listing everything in sight reads is there to read.
pub open spec fn sight_readable(sim: &Sim) -> bool {
    &&& sim.state.visible@.len() >= 640
    &&& actors_measurable(sim.state)
    &&& forall|k: int|
        0 <= k < npc_count(sim.world.npcs@, sim.state.npcs@) && #[trigger] npc_in_sight(sim, k) ==> diff_fits(
            sim.state.hunter.pos,
            sim.state.npcs@[k].pos,
        )
    &&& forall|k: int|
        0 <= k < sim.state.actors@.len() && aimable(sim.state, #[trigger] sim.state.actors@[k])
            && sim.state.actors@[k].kind is Villain ==> sim.has_villain_def() && sim.vulnerability_readable(
            sim.state.actors@[k].id,
        )
}

impl Sim {
    /// Everything the hunter can see, for the in-sight panel and cursor
    /// cycling: hostiles before people, nearest first, then by row and
    /// column.
    pub fn in_sight(&self) -> (r: Vec<SightEntry>)
        requires
            sight_readable(self),
        ensures
            r@.len() == sights(self).len(),
            forall|k: int|
                0 <= k < sights(self).len() ==> sight_view(
                    r@[key_rank(sights(self).map_values(|v| sight_key(self.state.hunter.pos, v)), k, sights(self).len() as int)],
                ) == #[trigger] sights(self)[k],
    {
        let hunter = self.state.hunter.pos;
        let strings = &self.catalogue.strings;
        let mut entries: Vec<SightEntry> = Vec::new();
        let mut keys: Vec<i64> = Vec::new();
        let mut a: usize = 0;
        while a < self.state.actors.len()
            invariant
                a <= self.state.actors@.len(),
                hunter == self.state.hunter.pos,
                *strings == self.catalogue.strings,
                sight_readable(self),
                entries@.map_values(|e: SightEntry| sight_view(e)) == actor_sights(self, a as int),
                keys@.map_values(|x: i64| x as int) == actor_sights(self, a as int).map_values(
                    |v| sight_key(hunter, v),
                ),
            decreases self.state.actors@.len() - a,
        {
            let actor = &self.state.actors[a];
            if actor.map == self.state.current_map && actor.hp > 0 && self.state.is_visible(actor.pos) {
                let mut current = String::new();
                push_number(&mut current, actor.hp as u128);
                let mut max = String::new();
                push_number(&mut max, actor.max_hp as u128);
                let args = [("current", current.as_str()), ("max", max.as_str())];
                let mut detail = strings.fill(&StringId(text_owned("ui.sight.health")), &args);
                proof {
                    assert(args_view(args@) =~= seq![
                        ("current"@, decimal(actor.hp as nat)),
                        ("max"@, decimal(actor.max_hp as nat)),
                    ]);
                }
                let villain = match actor.kind {
                    ActorKind::Villain => true,
                    ActorKind::Enemy(_) => false,
                };
                let ghost health = detail@;
                if actor.trapped > 0 {
                    push_text(&mut detail, strings.ui("ui.sight.held"));
                } else if villain && self.villain_is_vulnerable(actor.id) {
                    push_text(&mut detail, strings.ui("ui.sight.vulnerable"));
                } else {
                    proof {
                        assert(detail@ =~= health + Seq::<char>::empty());
                    }
                }
                let distance = hunter.distance(actor.pos);
                let name = self.actor_name(&actor.kind);
                let entry = SightEntry { name, detail, at: actor.pos, distance, hostile: true };
                let key = aim_key_of(hunter, actor.pos);
                proof {
                    assert(sight_view(entry) == actor_sight(self, self.state.actors@[a as int]));
                    assert(aimable(self.state, self.state.actors@[a as int]));
                    assert(actor_sights(self, a + 1) == actor_sights(self, a as int).push(
                        actor_sight(self, self.state.actors@[a as int]),
                    ));
                    assert(key as int == sight_key(hunter, actor_sight(self, self.state.actors@[a as int])));
                }
                let ghost old_keys = keys@;
                entries.push(entry);
                keys.push(key);
                proof {
                    assert(entries@.map_values(|e: SightEntry| sight_view(e)) =~= actor_sights(self, a + 1));
                    let want = actor_sights(self, a + 1).map_values(|v| sight_key(hunter, v));
                    let old_want = actor_sights(self, a as int).map_values(|v| sight_key(hunter, v));
                    let old_sights = actor_sights(self, a as int);
                    let new_sights = actor_sights(self, a + 1);
                    let added = actor_sight(self, self.state.actors@[a as int]);
                    assert(old_keys.map_values(|x: i64| x as int).len() == old_sights.len());
                    assert forall|j: int| 0 <= j < keys@.len() implies keys@.map_values(|x: i64| x as int)[j]
                        == want[j] by {
                        if j < old_keys.len() {
                            assert(keys@[j] == old_keys[j]);
                            assert(old_keys.map_values(|x: i64| x as int)[j] == old_want[j]);
                            assert(new_sights[j] == old_sights[j]);
                        } else {
                            assert(keys@[j] == key);
                            assert(new_sights[j] == added);
                        }
                    }
                    assert(keys@.map_values(|x: i64| x as int) =~= want);
                }
            } else {
                proof {
                    assert(actor_sights(self, a + 1) == actor_sights(self, a as int));
                }
            }
            a = a + 1;
        }
        let ghost hostile_part = actor_sights(self, self.state.actors@.len() as int);
        let n = if self.world.npcs.len() <= self.state.npcs.len() {
            self.world.npcs.len()
        } else {
            self.state.npcs.len()
        };
        let mut k: usize = 0;
        while k < n
            invariant
                k <= n,
                n == npc_count(self.world.npcs@, self.state.npcs@),
                hunter == self.state.hunter.pos,
                *strings == self.catalogue.strings,
                sight_readable(self),
                hostile_part == actor_sights(self, self.state.actors@.len() as int),
                entries@.map_values(|e: SightEntry| sight_view(e)) == hostile_part + npc_sights(self, k as int),
                keys@.map_values(|x: i64| x as int) == (hostile_part + npc_sights(self, k as int)).map_values(
                    |v| sight_key(hunter, v),
                ),
            decreases n - k,
        {
            let spec = &self.world.npcs[k];
            let npc = &self.state.npcs[k];
            if spec.map == self.state.current_map && npc.alive && !npc.fled && self.state.is_visible(npc.pos) {
                proof {
                    assert(npc_in_sight(self, k as int));
                }
                let role = match self.catalogue.npcs.archetypes.get(spec.archetype.as_str()) {
                    Some(def) => text_owned(strings.get(&def.name)),
                    None => String::new(),
                };
                let distance = hunter.distance(npc.pos);
                let entry = SightEntry {
                    name: text_owned(spec.name.as_str()),
                    detail: role,
                    at: npc.pos,
                    distance,
                    hostile: false,
                };
                let key = 281474976710656 + aim_key_of(hunter, npc.pos);
                proof {
                    assert(sight_view(entry) == npc_sight(self, k as int));
                    assert(npc_sights(self, k + 1) == npc_sights(self, k as int).push(npc_sight(self, k as int)));
                    assert(hostile_part + npc_sights(self, k + 1) =~= (hostile_part + npc_sights(self, k as int)).push(
                        npc_sight(self, k as int),
                    ));
                    assert(key as int == sight_key(hunter, npc_sight(self, k as int)));
                }
                let ghost old_keys = keys@;
                entries.push(entry);
                keys.push(key);
                proof {
                    assert(entries@.map_values(|e: SightEntry| sight_view(e)) =~= hostile_part + npc_sights(
                        self,
                        k + 1,
                    ));
                    let want = (hostile_part + npc_sights(self, k + 1)).map_values(|v| sight_key(hunter, v));
                    let old_want = (hostile_part + npc_sights(self, k as int)).map_values(|v| sight_key(hunter, v));
                    let old_sights = hostile_part + npc_sights(self, k as int);
                    let new_sights = hostile_part + npc_sights(self, k + 1);
                    let added = npc_sight(self, k as int);
                    assert(old_keys.map_values(|x: i64| x as int).len() == old_sights.len());
                    assert forall|j: int| 0 <= j < keys@.len() implies keys@.map_values(|x: i64| x as int)[j]
                        == want[j] by {
                        if j < old_keys.len() {
                            assert(keys@[j] == old_keys[j]);
                            assert(old_keys.map_values(|x: i64| x as int)[j] == old_want[j]);
                            assert(new_sights[j] == old_sights[j]);
                        } else {
                            assert(keys@[j] == key);
                            assert(new_sights[j] == added);
                        }
                    }
                    assert(keys@.map_values(|x: i64| x as int) =~= want);
                }
            } else {
                proof {
                    assert(npc_sights(self, k + 1) == npc_sights(self, k as int));
                }
            }
            k = k + 1;
        }
        let ghost before = entries@;
        let sorted = stable_sort_by_keys(entries, &keys);
        proof {
            let all = sights(self);
            let ks = all.map_values(|v| sight_key(hunter, v));
            assert(before.map_values(|e: SightEntry| sight_view(e)) == all);
            assert(keys@.map_values(|x: i64| x as int) == ks);
            assert forall|j: int| 0 <= j < all.len() implies sight_view(
                sorted@[key_rank(ks, j, all.len() as int)],
            ) == #[trigger] all[j] by {
                assert(sorted@[key_rank(keys@.map_values(|x: i64| x as int), j, before.len() as int)] == before[j]);
                assert(sight_view(before[j]) == before.map_values(|e: SightEntry| sight_view(e))[j]);
            }
        }
        sorted
    }
}

} // verus!
