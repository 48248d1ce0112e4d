//! Sight and footing on the tactical maps.
//!
//! Visibility is symmetric line of sight, shared with pounce-lane checks so
//! "you can see it" and "it can leap at you" always agree; both read which
//! terrain blocks sight from here.
use vstd::prelude::*;

use crate::geometry::{
    chebyshev, diff_fits, lemma_line_between_symmetric, line_between, line_fits, line_spec, spec_in_bounds, Point,
    MAP_HEIGHT, MAP_WIDTH,
};
use crate::schema::{spec_forceable, spec_opaque, spec_walkable, Terrain};
use crate::state::{no_actor_at, no_npc_at, state_terrain, terrain_readable, RunState, TerrainOverride};
use crate::world::{tile_index, MapId, World};

verus! {

/// Whether terrain blocks sight (and pounce lanes).
pub fn is_opaque(terrain: Terrain) -> (r: bool)
    ensures
        r == spec_opaque(terrain),
{
    match terrain {
        Terrain::Wall | Terrain::Tree | Terrain::Rubble | Terrain::BarredDoor => true,
        _ => false,
    }
}

/// Whether actors can stand on this terrain.
pub fn is_walkable(terrain: Terrain) -> (r: bool)
    ensures
        r == spec_walkable(terrain),
{
    match terrain {
        Terrain::Floor | Terrain::Door | Terrain::Road | Terrain::Grass | Terrain::Grave => true,
        _ => false,
    }
}

/// Nothing both blocks sight and can be stood on.
pub proof fn lemma_opaque_is_never_walkable(terrain: Terrain)
    ensures
        spec_opaque(terrain) ==> !spec_walkable(terrain),
{
}

/// What stands taller than a person blocks sight. A terrain stops the eye
/// exactly when it cannot be walked and is neither water nor the altar or
/// workstation one looks across: walls, trees, rubble and barred doors.
/// Whatever can be forced open blocks sight until it is.
pub proof fn lemma_what_blocks_sight(t: Terrain)
    ensures
        spec_opaque(t) <==> (!spec_walkable(t) && t != Terrain::Water && t != Terrain::Altar && t
            != Terrain::Workstation),
        spec_forceable(t) ==> spec_opaque(t),
{
}

/// An obstacle standing on the line between two points (a wall, a tree,
/// rubble or a barred door: anything that cannot be walked that is not
/// water, an altar or a workstation) leaves no line of sight between them.
pub proof fn lemma_an_obstacle_on_the_line_blocks_sight(
    ovs: Seq<TerrainOverride>,
    world: World,
    map: MapId,
    from: Point,
    to: Point,
    k: int,
)
    requires
        0 <= k < line_spec(from, to).len(),
        !spec_walkable(state_terrain(ovs, world, map, line_spec(from, to)[k])),
        state_terrain(ovs, world, map, line_spec(from, to)[k]) != Terrain::Water,
        state_terrain(ovs, world, map, line_spec(from, to)[k]) != Terrain::Altar,
        state_terrain(ovs, world, map, line_spec(from, to)[k]) != Terrain::Workstation,
    ensures
        !sight_clear(ovs, world, map, from, to),
{
    lemma_what_blocks_sight(state_terrain(ovs, world, map, line_spec(from, to)[k]));
}

/// Every tile strictly between `from` and `to` can be read.
pub open spec fn lane_readable(ovs: Seq<TerrainOverride>, world: World, map: MapId, from: Point, to: Point) -> bool {
    forall|k: int|
        0 <= k < line_spec(from, to).len() ==> terrain_readable(ovs, world, map, #[trigger] line_spec(from, to)[k])
}

/// Nothing strictly between `from` and `to` blocks sight.
pub open spec fn sight_clear(ovs: Seq<TerrainOverride>, world: World, map: MapId, from: Point, to: Point) -> bool {
    forall|k: int|
        0 <= k < line_spec(from, to).len() ==> !spec_opaque(
            state_terrain(ovs, world, map, #[trigger] line_spec(from, to)[k]),
        )
}

/// Nothing strictly between `from` and `to` blocks sight, and no living
/// actor or present NPC stands there.
pub open spec fn lane_clear(state: RunState, world: World, map: MapId, from: Point, to: Point) -> bool {
    forall|k: int|
        0 <= k < line_spec(from, to).len() ==> {
            let p = #[trigger] line_spec(from, to)[k];
            &&& !spec_opaque(state_terrain(state.terrain_overrides@, world, map, p))
            &&& no_actor_at(state.actors@, map, p)
            &&& no_npc_at(world.npcs@, state.npcs@, map, p)
        }
}

/// Clear line of sight between two points (endpoints excluded).
pub fn has_line_of_sight(state: &RunState, world: &World, map: MapId, from: Point, to: Point) -> (r: bool)
    requires
        line_fits(from, to),
        lane_readable(state.terrain_overrides@, *world, map, from, to),
    ensures
        r == sight_clear(state.terrain_overrides@, *world, map, from, to),
{
    let line = line_between(from, to);
    let mut k: usize = 0;
    while k < line.len()
        invariant
            k <= line.len(),
            line@ == line_spec(from, to),
            lane_readable(state.terrain_overrides@, *world, map, from, to),
            forall|m: int|
                0 <= m < k ==> !spec_opaque(state_terrain(state.terrain_overrides@, *world, map, #[trigger] line@[m])),
        decreases line.len() - k,
    {
        if is_opaque(state.terrain(world, map, line[k])) {
            return false;
        }
        k = k + 1;
    }
    true
}

/// A clear pounce lane: line of sight with no intervening actor either.
pub fn has_clear_lane(state: &RunState, world: &World, map: MapId, from: Point, to: Point) -> (r: bool)
    requires
        line_fits(from, to),
        lane_readable(state.terrain_overrides@, *world, map, from, to),
    ensures
        r == lane_clear(*state, *world, map, from, to),
{
    let line = line_between(from, to);
    let mut k: usize = 0;
    while k < line.len()
        invariant
            k <= line.len(),
            line@ == line_spec(from, to),
            lane_readable(state.terrain_overrides@, *world, map, from, to),
            forall|m: int|
                0 <= m < k ==> {
                    let p = #[trigger] line@[m];
                    &&& !spec_opaque(state_terrain(state.terrain_overrides@, *world, map, p))
                    &&& no_actor_at(state.actors@, map, p)
                    &&& no_npc_at(world.npcs@, state.npcs@, map, p)
                },
        decreases line.len() - k,
    {
        let p = line[k];
        if is_opaque(state.terrain(world, map, p)) || state.actor_at(map, p).is_some() || state.npc_at(
            world,
            map,
            p,
        ).is_some() {
            return false;
        }
        k = k + 1;
    }
    true
}

/// Sight does not depend on which end looks: what `a` can see of `b`, `b`
/// can see of `a`.
pub proof fn lemma_sight_is_symmetric(ovs: Seq<TerrainOverride>, world: World, map: MapId, a: Point, b: Point)
    ensures
        sight_clear(ovs, world, map, a, b) == sight_clear(ovs, world, map, b, a),
{
    lemma_line_between_symmetric(a, b);
}

/// A lane clear for a pounce is a clear line of sight too: whatever can leap
/// at the hunter can be seen.
pub proof fn lemma_clear_lane_is_in_sight(state: RunState, world: World, map: MapId, from: Point, to: Point)
    requires
        lane_clear(state, world, map, from, to),
    ensures
        sight_clear(state.terrain_overrides@, world, map, from, to),
{
}

/// The tile at `i` of a row-major map-sized grid.
pub open spec fn grid_point(i: int) -> Point {
    Point { x: (i % MAP_WIDTH as int) as i16, y: (i / MAP_WIDTH as int) as i16 }
}

/// The number of tiles on a map.
pub open spec fn grid_tiles() -> int {
    MAP_WIDTH * MAP_HEIGHT
}

/// From `origin`, `p` is within `radius` and in clear sight.
pub open spec fn sees(ovs: Seq<TerrainOverride>, world: World, map: MapId, origin: Point, radius: int, p: Point) -> bool {
    chebyshev(origin, p) <= radius && sight_clear(ovs, world, map, origin, p)
}

/// Recompute current visibility from the hunter's position with the authored
/// FOV radius, and mark newly visible tiles as seen.
pub fn refresh_visibility(state: &mut RunState, world: &World, radius: u8)
    requires
        old(state).visible@.len() >= grid_tiles(),
        i16::MIN + MAP_WIDTH <= old(state).hunter.pos.x,
        i16::MIN + MAP_HEIGHT <= old(state).hunter.pos.y,
        forall|p: Point|
            spec_in_bounds(p) && chebyshev(old(state).hunter.pos, p) <= radius ==> lane_readable(
                old(state).terrain_overrides@,
                *world,
                old(state).current_map,
                old(state).hunter.pos,
                p,
            ),
        forall|p: Point|
            spec_in_bounds(p) && #[trigger] sees(
                old(state).terrain_overrides@,
                *world,
                old(state).current_map,
                old(state).hunter.pos,
                radius as int,
                p,
            ) ==> (old(state).current_map.0 as int) < old(state).seen@.len() && tile_index(p) < old(
                state,
            ).seen@[old(state).current_map.0 as int]@.len(),
    ensures
        final(state).same_but_sight(&*old(state)),
        final(state).visible@.len() == old(state).visible@.len(),
        forall|i: int|
            0 <= i < grid_tiles() ==> #[trigger] final(state).visible@[i] == sees(
                old(state).terrain_overrides@,
                *world,
                old(state).current_map,
                old(state).hunter.pos,
                radius as int,
                grid_point(i),
            ),
        forall|i: int| grid_tiles() <= i < old(state).visible@.len() ==> #[trigger] final(state).visible@[i] == old(state).visible@[i],
        final(state).seen@.len() == old(state).seen@.len(),
        forall|m: int|
            0 <= m < old(state).seen@.len() && m != old(state).current_map.0 ==> #[trigger] final(state).seen@[m]
                == old(state).seen@[m],
        (old(state).current_map.0 as int) < old(state).seen@.len() ==> {
            let row = old(state).current_map.0 as int;
            &&& final(state).seen@[row]@.len() == old(state).seen@[row]@.len()
            &&& forall|i: int|
                0 <= i < old(state).seen@[row]@.len() ==> #[trigger] final(state).seen@[row]@[i] == (old(
                    state,
                ).seen@[row]@[i] || (i < grid_tiles() && final(state).visible@[i]))
        },
{
    let ghost before = *state;
    let map = state.current_map;
    let origin = state.hunter.pos;
    let mut i: usize = 0;
    while i < 640
        invariant
            0 <= i <= 640,
            state.same_but_sight(&before),
            state.seen == before.seen,
            state.visible@.len() == before.visible@.len(),
            before.visible@.len() >= grid_tiles(),
            map == before.current_map,
            origin == before.hunter.pos,
            i16::MIN + MAP_WIDTH <= origin.x,
            i16::MIN + MAP_HEIGHT <= origin.y,
            forall|p: Point|
                spec_in_bounds(p) && chebyshev(origin, p) <= radius ==> lane_readable(
                    before.terrain_overrides@,
                    *world,
                    map,
                    origin,
                    p,
                ),
            forall|m: int|
                0 <= m < i ==> #[trigger] state.visible@[m] == sees(
                    before.terrain_overrides@,
                    *world,
                    map,
                    origin,
                    radius as int,
                    grid_point(m),
                ),
            forall|m: int| i <= m < state.visible@.len() ==> #[trigger] state.visible@[m] == before.visible@[m],
        decreases 640 - i,
    {
        let x = (i % 32) as i16;
        let y = (i / 32) as i16;
        let point = Point::new(x, y);
        assert(point == grid_point(i as int));
        assert(spec_in_bounds(point));
        let near = origin.distance(point) <= radius as i16;
        let v = near && has_line_of_sight(state, world, map, origin, point);
        state.visible.set(i, v);
        i = i + 1;
    }
    let m = map.0 as usize;
    if m < state.seen.len() {
        let mut row: Vec<bool> = Vec::new();
        let mut j: usize = 0;
        let n = state.seen[m].len();
        while j < n
            invariant
                j <= n,
                m < state.seen@.len(),
                n == state.seen@[m as int]@.len(),
                row@.len() == j,
                state.visible@.len() >= grid_tiles(),
                forall|k: int|
                    0 <= k < j ==> #[trigger] row@[k] == (state.seen@[m as int]@[k] || (k < grid_tiles()
                        && state.visible@[k])),
            decreases n - j,
        {
            let lit = state.seen[m][j] || (j < 640 && state.visible[j]);
            row.push(lit);
            j = j + 1;
        }
        state.seen.set(m, row);
    }
}

} // verus!
