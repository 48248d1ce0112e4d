//! The interact menu: what the hunter can do where she stands, each offer
//! with the reason it is blocked when it is, and what choosing it does.
use vstd::prelude::*;

use crate::client::{first_exit_at, join_parts, joined_with, text_view, ui_text, MenuAction, MenuItem, Modal};
use crate::frame::item_label;
use crate::keyed::{keys_well_ordered, lemma_keys_ascending, KeyedMap};
use crate::text::{lemma_text_lt_irreflexive, lemma_text_lt_trans, text_lt};
use crate::command::Command;
use crate::frame::filled;
use crate::geometry::{spec_all, spec_in_bounds, Direction, Point};
use crate::schema::{PoolKind, Terrain};
use crate::sim::Sim;
use crate::state::{npc_count, state_terrain};
use crate::strings::{args_view, StringId};
use crate::text::{decimal, push_number, push_text, text_owned};
use crate::view::{feature_listed, opportunity_listed};
use crate::world::{FeatureKind, FeatureSpec, OpportunityAnchor, OpportunitySpec};

verus! {

/// Two commands do the same thing: equal, or crafting the same recipe.
pub open spec fn same_command(a: Command, b: Command) -> bool {
    match (a, b) {
        (Command::Craft { recipe: x }, Command::Craft { recipe: y }) => x@ == y@,
        _ => a == b,
    }
}

/// `it` shows `row`: its label, its blocked reason, and the command it fires.
pub open spec fn row_is(it: MenuItem, row: (Seq<char>, Option<Seq<char>>, Command)) -> bool {
    &&& it.label@ == row.0
    &&& text_view(it.blocked) == row.1
    &&& it.action matches MenuAction::Do(c) && same_command(c, row.2)
}

/// `after` is `before` with one item for each of `rows` added at the end.
pub open spec fn appended(
    before: Seq<MenuItem>,
    after: Seq<MenuItem>,
    rows: Seq<(Seq<char>, Option<Seq<char>>, Command)>,
) -> bool {
    &&& after.len() == before.len() + rows.len()
    &&& forall|i: int| 0 <= i < before.len() ==> #[trigger] after[i] == before[i]
    &&& forall|j: int| 0 <= j < rows.len() ==> row_is(after[before.len() + j], #[trigger] rows[j])
}

/// `items` shows exactly `rows`, in order.
pub open spec fn rows_shown(items: Seq<MenuItem>, rows: Seq<(Seq<char>, Option<Seq<char>>, Command)>) -> bool {
    &&& items.len() == rows.len()
    &&& forall|j: int| 0 <= j < rows.len() ==> row_is(items[j], #[trigger] rows[j])
}

proof fn lemma_appended_trans(
    a: Seq<MenuItem>,
    b: Seq<MenuItem>,
    c: Seq<MenuItem>,
    r1: Seq<(Seq<char>, Option<Seq<char>>, Command)>,
    r2: Seq<(Seq<char>, Option<Seq<char>>, Command)>,
)
    requires
        appended(a, b, r1),
        appended(b, c, r2),
    ensures
        appended(a, c, r1 + r2),
{
    assert forall|i: int| 0 <= i < a.len() implies #[trigger] c[i] == a[i] by {
        assert(c[i] == b[i]);
    }
    assert forall|j: int| 0 <= j < (r1 + r2).len() implies row_is(c[a.len() + j], #[trigger] (r1 + r2)[j]) by {
        if j < r1.len() {
            assert(r1[j] == (r1 + r2)[j]);
            assert(c[a.len() + j] == b[a.len() + j]);
        } else {
            assert(r2[j - r1.len()] == (r1 + r2)[j]);
        }
    }
}

proof fn lemma_appended_none(a: Seq<MenuItem>)
    ensures
        appended(a, a, seq![]),
{
}

fn push_row(items: &mut Vec<MenuItem>, label: String, blocked: Option<String>, command: Command)
    ensures
        appended(old(items)@, final(items)@, seq![(label@, text_view(blocked), command)]),
{
    let ghost row = (label@, text_view(blocked), command);
    items.push(MenuItem { label, blocked, action: MenuAction::Do(command) });
    proof {
        let s = seq![row];
        assert(s[0] == row);
        assert(items@[old(items)@.len() as int] == items@.last());
    }
}

/// `a` and `b` are the same tile or touch.
pub open spec fn touching(a: Point, b: Point) -> bool {
    -1 <= a.x - b.x <= 1 && -1 <= a.y - b.y <= 1
}

/// `a` and `b` are different tiles that touch.
pub open spec fn beside(a: Point, b: Point) -> bool {
    touching(a, b) && a != b
}

fn is_touching(a: Point, b: Point) -> (r: bool)
    ensures
        r == touching(a, b),
{
    let dx = a.x as i32 - b.x as i32;
    let dy = a.y as i32 - b.y as i32;
    -1 <= dx && dx <= 1 && -1 <= dy && dy <= 1
}

fn is_beside(a: Point, b: Point) -> (r: bool)
    ensures
        r == beside(a, b),
{
    is_touching(a, b) && !(a.x == b.x && a.y == b.y)
}

/// What the run needs for the menu to be read without a missing piece.
pub open spec fn interact_readable(sim: &Sim) -> bool {
    let map = sim.state.current_map;
    &&& (map.0 as int) < sim.world.maps@.len()
    &&& sim.world.maps@[map.0 as int].tiles@.len() >= 640
    &&& spec_in_bounds(sim.state.hunter.pos)
    &&& forall|k: int|
        0 <= k < sim.world.maps@[map.0 as int].exits@.len() ==> ((#[trigger] sim.world.maps@[map.0 as int].exits@[k]).to_map.0 as int)
            < sim.world.maps@.len()
    &&& forall|k: int|
        0 <= k < sim.world.opportunities@.len() ==> match (#[trigger] sim.world.opportunities@[k]).anchor {
            OpportunityAnchor::Npc(n) => (n.0 as int) < sim.state.npcs@.len(),
            OpportunityAnchor::Tile(_) => true,
        }
}

pub open spec fn no_time(sim: &Sim) -> Option<Seq<char>> {
    if sim.state.final_hunt {
        Some(ui_text(sim, "ui.blocked.no-time"@))
    } else {
        None
    }
}

/// Travel, when the hunter stands on an exit: the first exit there.
pub open spec fn travel_rows(sim: &Sim) -> Seq<(Seq<char>, Option<Seq<char>>, Command)> {
    let exits = sim.world.maps@[sim.state.current_map.0 as int].exits@;
    let p = sim.state.hunter.pos;
    if exists|k: int| first_exit_at(exits, p, k) {
        let k = choose|k: int| first_exit_at(exits, p, k);
        let place = sim.world.maps@[exits[k].to_map.0 as int].name@;
        seq![(filled(sim, "ui.action.travel"@, seq![("place"@, place)]), no_time(sim), Command::Travel)]
    } else {
        seq![]
    }
}

fn push_travel(sim: &Sim, items: &mut Vec<MenuItem>)
    requires
        interact_readable(sim),
    ensures
        appended(old(items)@, final(items)@, travel_rows(sim)),
{
    let wm = sim.world.map(sim.state.current_map);
    let exits = &wm.exits;
    let mut k: usize = 0;
    while k < exits.len()
        invariant
            k <= exits@.len(),
            *exits == sim.world.maps@[sim.state.current_map.0 as int].exits,
            interact_readable(sim),
            items@ == old(items)@,
            forall|m: int| 0 <= m < k ==> (#[trigger] exits@[m]).at != sim.state.hunter.pos,
        decreases exits@.len() - k,
    {
        if exits[k].at == sim.state.hunter.pos {
            proof {
                assert(first_exit_at(exits@, sim.state.hunter.pos, k as int));
                assert forall|j: int| first_exit_at(exits@, sim.state.hunter.pos, j) implies j == k by {
                    if j < k {
                        assert(exits@[j].at != sim.state.hunter.pos);
                    } else if j > k {
                        assert(exits@[k as int].at != sim.state.hunter.pos);
                    }
                }
            }
            let to = exits[k].to_map;
            assert((to.0 as int) < sim.world.maps@.len());
            let name = &sim.world.map(to).name;
            let args = [("place", name.as_str())];
            let label = sim.catalogue.strings.fill(&StringId(text_owned("ui.action.travel")), &args);
            proof {
                assert(args_view(args@) =~= seq![("place"@, name@)]);
            }
            let blocked = if sim.state.final_hunt {
                Some(text_owned(sim.catalogue.strings.ui("ui.blocked.no-time")))
            } else {
                None
            };
            push_row(items, label, blocked, Command::Travel);
            return;
        }
        k = k + 1;
    }
    proof {
        assert forall|j: int| !first_exit_at(exits@, sim.state.hunter.pos, j) by {
            if 0 <= j < exits@.len() {
                assert(exits@[j].at != sim.state.hunter.pos);
            }
        }
        lemma_appended_none(items@);
    }
}

/// Naming the quarry, once two identity proofs agree and it is not yet named.
pub open spec fn name_rows(sim: &Sim) -> Seq<(Seq<char>, Option<Seq<char>>, Command)> {
    if sim.state.identity_clues@.len() >= 2 && !sim.state.villain_uncovered {
        seq![(ui_text(sim, "ui.action.name-quarry"@), None, Command::UncoverVillain)]
    } else {
        seq![]
    }
}

fn push_name(sim: &Sim, items: &mut Vec<MenuItem>)
    ensures
        appended(old(items)@, final(items)@, name_rows(sim)),
{
    if sim.state.identity_clues.len() >= 2 && !sim.state.villain_uncovered {
        push_row(
            items,
            text_owned(sim.catalogue.strings.ui("ui.action.name-quarry")),
            None,
            Command::UncoverVillain,
        );
    } else {
        proof {
            lemma_appended_none(items@);
        }
    }
}

/// Some feature of `fs` of kind `kind` stands on or next to `p`.
pub open spec fn feature_near(fs: Seq<FeatureSpec>, kind: FeatureKind, p: Point) -> bool {
    exists|k: int| 0 <= k < fs.len() && (#[trigger] fs[k]).kind == kind && touching(p, fs[k].at)
}

fn is_feature_near(fs: &Vec<FeatureSpec>, kind: FeatureKind, p: Point) -> (r: bool)
    ensures
        r == feature_near(fs@, kind, p),
{
    let mut k: usize = 0;
    while k < fs.len()
        invariant
            k <= fs@.len(),
            forall|m: int| 0 <= m < k ==> !((#[trigger] fs@[m]).kind == kind && touching(p, fs@[m].at)),
        decreases fs@.len() - k,
    {
        let same = match (&fs[k].kind, &kind) {
            (FeatureKind::Workstation, FeatureKind::Workstation) => true,
            (FeatureKind::Altar, FeatureKind::Altar) => true,
            (FeatureKind::Landmark, FeatureKind::Landmark) => true,
            (FeatureKind::Grave { contents: a }, FeatureKind::Grave { contents: b }) => *a == *b,
            _ => false,
        };
        if same && is_touching(p, fs[k].at) {
            return true;
        }
        k = k + 1;
    }
    false
}

/// The features of the hunter's map.
pub open spec fn here_features(sim: &Sim) -> Seq<FeatureSpec> {
    sim.world.maps@[sim.state.current_map.0 as int].features@
}

/// The consecration rite, at the altar.
pub open spec fn altar_rows(sim: &Sim) -> Seq<(Seq<char>, Option<Seq<char>>, Command)> {
    if feature_near(here_features(sim), FeatureKind::Altar, sim.state.hunter.pos) {
        let blocked = if sim.state.church_consecrated {
            Some(ui_text(sim, "ui.blocked.already-warded"@))
        } else {
            no_time(sim)
        };
        seq![(ui_text(sim, "ui.action.consecrate"@), blocked, Command::Consecrate)]
    } else {
        seq![]
    }
}

fn push_altar(sim: &Sim, items: &mut Vec<MenuItem>)
    requires
        interact_readable(sim),
    ensures
        appended(old(items)@, final(items)@, altar_rows(sim)),
{
    let wm = sim.world.map(sim.state.current_map);
    if is_feature_near(&wm.features, FeatureKind::Altar, sim.state.hunter.pos) {
        let blocked = if sim.state.church_consecrated {
            Some(text_owned(sim.catalogue.strings.ui("ui.blocked.already-warded")))
        } else if sim.state.final_hunt {
            Some(text_owned(sim.catalogue.strings.ui("ui.blocked.no-time")))
        } else {
            None
        };
        push_row(items, text_owned(sim.catalogue.strings.ui("ui.action.consecrate")), blocked, Command::Consecrate);
    } else {
        proof {
            lemma_appended_none(items@);
        }
    }
}

/// Needing a point of muscle that the hunter lacks.
pub open spec fn needs_physical(sim: &Sim) -> Option<Seq<char>> {
    if sim.state.hunter.physical < 1 {
        Some("Needs 1 Physical point."@)
    } else {
        None
    }
}

fn physical_note(sim: &Sim) -> (r: Option<String>)
    ensures
        text_view(r) == needs_physical(sim),
{
    if sim.state.hunter.physical < 1 {
        Some(text_owned("Needs 1 Physical point."))
    } else {
        None
    }
}

/// The offer to open one grave.
pub open spec fn grave_row(sim: &Sim, f: FeatureSpec) -> (Seq<char>, Option<Seq<char>>, Command) {
    let blocked = if sim.state.opened_graves@.contains(f.id) {
        Some(ui_text(sim, "ui.blocked.already-opened"@))
    } else {
        needs_physical(sim)
    };
    ("Open "@ + f.name@ + " [1 Physical]"@, blocked, Command::OpenGrave(f.id))
}

/// Graves on or next to the hunter, among the first `n` features.
pub open spec fn grave_rows(sim: &Sim, n: int) -> Seq<(Seq<char>, Option<Seq<char>>, Command)>
    decreases n,
{
    if n <= 0 {
        seq![]
    } else {
        let f = here_features(sim)[n - 1];
        grave_rows(sim, n - 1) + if f.kind is Grave && touching(sim.state.hunter.pos, f.at) {
            seq![grave_row(sim, f)]
        } else {
            seq![]
        }
    }
}

fn push_graves(sim: &Sim, items: &mut Vec<MenuItem>)
    requires
        interact_readable(sim),
    ensures
        appended(old(items)@, final(items)@, grave_rows(sim, here_features(sim).len() as int)),
{
    let fs = &sim.world.map(sim.state.current_map).features;
    let ghost start = items@;
    proof {
        lemma_appended_none(items@);
    }
    let mut k: usize = 0;
    while k < fs.len()
        invariant
            k <= fs@.len(),
            fs@ == here_features(sim),
            appended(start, items@, grave_rows(sim, k as int)),
        decreases fs@.len() - k,
    {
        let f = &fs[k];
        let ghost before = items@;
        let is_grave = match f.kind {
            FeatureKind::Grave { .. } => true,
            _ => false,
        };
        if is_grave && is_touching(sim.state.hunter.pos, f.at) {
            let blocked = if feature_listed(&sim.state.opened_graves, f.id) {
                Some(text_owned(sim.catalogue.strings.ui("ui.blocked.already-opened")))
            } else {
                physical_note(sim)
            };
            let mut label = text_owned("Open ");
            push_text(&mut label, f.name.as_str());
            push_text(&mut label, " [1 Physical]");
            push_row(items, label, blocked, Command::OpenGrave(f.id));
            proof {
                lemma_appended_trans(start, before, items@, grave_rows(sim, k as int), seq![grave_row(sim, *f)]);
            }
        } else {
            proof {
                assert(grave_rows(sim, k as int) + seq![] =~= grave_rows(sim, k as int));
            }
        }
        k = k + 1;
    }
}

/// The tile one step from `p` in direction `d`.
pub open spec fn stepped(p: Point, d: Direction) -> Point {
    Point { x: (p.x + d.spec_delta().0) as i16, y: (p.y + d.spec_delta().1) as i16 }
}

/// The offer to clear what blocks the way in direction `d`, if anything does.
pub open spec fn force_rows_for(sim: &Sim, d: Direction) -> Seq<(Seq<char>, Option<Seq<char>>, Command)> {
    let t = state_terrain(
        sim.state.terrain_overrides@,
        sim.world,
        sim.state.current_map,
        stepped(sim.state.hunter.pos, d),
    );
    if t == Terrain::BarredDoor {
        seq![("Force the barred door [1 Physical]"@, needs_physical(sim), Command::Force(d))]
    } else if t == Terrain::Rubble {
        seq![("Shift the rubble [1 Physical]"@, needs_physical(sim), Command::Force(d))]
    } else {
        seq![]
    }
}

/// Forceable terrain around the hunter, over the first `n` directions
/// clockwise from north.
pub open spec fn force_rows(sim: &Sim, n: int) -> Seq<(Seq<char>, Option<Seq<char>>, Command)>
    decreases n,
{
    if n <= 0 {
        seq![]
    } else {
        force_rows(sim, n - 1) + force_rows_for(sim, spec_all()[n - 1])
    }
}

fn push_force(sim: &Sim, items: &mut Vec<MenuItem>)
    requires
        interact_readable(sim),
    ensures
        appended(old(items)@, final(items)@, force_rows(sim, 8)),
{
    let dirs = Direction::ALL;
    let ghost start = items@;
    proof {
        lemma_appended_none(items@);
    }
    let mut k: usize = 0;
    while k < 8
        invariant
            k <= 8,
            dirs@ == spec_all(),
            interact_readable(sim),
            appended(start, items@, force_rows(sim, k as int)),
        decreases 8 - k,
    {
        let d = dirs[k];
        let ghost before = items@;
        let at = sim.state.hunter.pos.step(d);
        assert(at == stepped(sim.state.hunter.pos, d));
        let t = sim.state.terrain(&sim.world, sim.state.current_map, at);
        if t == Terrain::BarredDoor {
            push_row(items, text_owned("Force the barred door [1 Physical]"), physical_note(sim), Command::Force(d));
        } else if t == Terrain::Rubble {
            push_row(items, text_owned("Shift the rubble [1 Physical]"), physical_note(sim), Command::Force(d));
        } else {
            proof {
                lemma_appended_none(items@);
            }
        }
        proof {
            lemma_appended_trans(start, before, items@, force_rows(sim, k as int), force_rows_for(sim, d));
        }
        k = k + 1;
    }
}

/// A pool as the menu spells it.
pub open spec fn pool_word(p: PoolKind) -> Seq<char> {
    match p {
        PoolKind::Lore => "Lore"@,
        PoolKind::Social => "Social"@,
        PoolKind::Mystic => "Mystic"@,
        PoolKind::Physical => "Physical"@,
    }
}

fn pool_text(p: PoolKind) -> (r: &'static str)
    ensures
        r@ == pool_word(p),
{
    match p {
        PoolKind::Lore => "Lore",
        PoolKind::Social => "Social",
        PoolKind::Mystic => "Mystic",
        PoolKind::Physical => "Physical",
    }
}

/// The hunter is near enough an opportunity's anchor to take it up: on or
/// beside its tile, or beside its villager while they are still about.
pub open spec fn anchor_near(sim: &Sim, a: OpportunityAnchor) -> bool {
    match a {
        OpportunityAnchor::Tile(at) => touching(sim.state.hunter.pos, at),
        OpportunityAnchor::Npc(n) => {
            let st = sim.state.npcs@[n.0 as int];
            st.alive && !st.fled && beside(sim.state.hunter.pos, st.pos)
        },
    }
}

/// A discovered, open opportunity on this map within reach.
pub open spec fn opp_offered(sim: &Sim, o: OpportunitySpec) -> bool {
    &&& o.map == sim.state.current_map
    &&& sim.state.discovered@.contains(o.id)
    &&& !sim.state.resolved@.contains(o.id)
    &&& !sim.state.lost@.contains(o.id)
    &&& anchor_near(sim, o.anchor)
}

/// What an opportunity costs from `p`: a social action costs one more in a
/// hostile settlement.
pub open spec fn opp_cost(sim: &Sim, o: OpportunitySpec, p: PoolKind) -> int {
    o.cost + if p == PoolKind::Social && sim.state.settlement_hostile {
        1int
    } else {
        0int
    }
}

pub open spec fn opp_blocked(sim: &Sim, o: OpportunitySpec) -> Option<Seq<char>> {
    match o.pool {
        Some(p) => if sim.state.hunter.spec_pool(p) < opp_cost(sim, o, p) {
            Some(
                "Needs "@ + decimal(opp_cost(sim, o, p) as nat) + " "@ + pool_word(p)
                    + " point(s); travel restores your pools."@,
            )
        } else {
            None
        },
        None => None,
    }
}

/// The listed price of an opportunity, after its name.
pub open spec fn cost_note(o: OpportunitySpec) -> Seq<char> {
    match o.pool {
        Some(p) => " ["@ + decimal(o.cost as nat) + " "@ + pool_word(p) + "]"@,
        None => seq![],
    }
}

pub open spec fn opp_row(sim: &Sim, o: OpportunitySpec) -> (Seq<char>, Option<Seq<char>>, Command) {
    (o.name@ + cost_note(o), opp_blocked(sim, o), Command::Interact(o.id))
}

/// The opportunities offered, among the first `n` of the world's.
pub open spec fn opp_rows(sim: &Sim, n: int) -> Seq<(Seq<char>, Option<Seq<char>>, Command)>
    decreases n,
{
    if n <= 0 {
        seq![]
    } else {
        let o = sim.world.opportunities@[n - 1];
        opp_rows(sim, n - 1) + if opp_offered(sim, o) {
            seq![opp_row(sim, o)]
        } else {
            seq![]
        }
    }
}

pub(crate) fn pool_points(sim: &Sim, p: PoolKind) -> (r: u16)
    ensures
        r == sim.state.hunter.spec_pool(p),
{
    let h = &sim.state.hunter;
    match p {
        PoolKind::Lore => h.lore as u16,
        PoolKind::Social => h.social as u16,
        PoolKind::Mystic => h.mystic as u16 + h.mystic_bonus as u16,
        PoolKind::Physical => h.physical as u16,
    }
}

fn push_opportunities(sim: &Sim, items: &mut Vec<MenuItem>)
    requires
        interact_readable(sim),
    ensures
        appended(old(items)@, final(items)@, opp_rows(sim, sim.world.opportunities@.len() as int)),
{
    let opps = &sim.world.opportunities;
    let ghost start = items@;
    proof {
        lemma_appended_none(items@);
    }
    let hunter = sim.state.hunter.pos;
    let mut k: usize = 0;
    while k < opps.len()
        invariant
            k <= opps@.len(),
            *opps == sim.world.opportunities,
            hunter == sim.state.hunter.pos,
            interact_readable(sim),
            appended(start, items@, opp_rows(sim, k as int)),
        decreases opps@.len() - k,
    {
        let o = &opps[k];
        let ghost before = items@;
        let listed = o.map == sim.state.current_map && opportunity_listed(&sim.state.discovered, o.id)
            && !opportunity_listed(&sim.state.resolved, o.id) && !opportunity_listed(&sim.state.lost, o.id);
        let near = match o.anchor {
            OpportunityAnchor::Tile(at) => is_touching(hunter, at),
            OpportunityAnchor::Npc(n) => {
                assert((n.0 as int) < sim.state.npcs@.len()) by {
                    assert(sim.world.opportunities@[k as int] == *o);
                }
                let st = &sim.state.npcs[n.0 as usize];
                st.alive && !st.fled && is_beside(hunter, st.pos)
            },
        };
        if listed && near {
            let blocked = match o.pool {
                Some(p) => {
                    let cost: u16 = if p == PoolKind::Social && sim.state.settlement_hostile {
                        o.cost as u16 + 1
                    } else {
                        o.cost as u16
                    };
                    if pool_points(sim, p) < cost {
                        let mut note = text_owned("Needs ");
                        push_number(&mut note, cost as u128);
                        push_text(&mut note, " ");
                        push_text(&mut note, pool_text(p));
                        push_text(&mut note, " point(s); travel restores your pools.");
                        proof {
                            assert(note@ =~= "Needs "@ + decimal(opp_cost(sim, *o, p) as nat) + " "@ + pool_word(p)
                                + " point(s); travel restores your pools."@);
                        }
                        Some(note)
                    } else {
                        None
                    }
                },
                None => None,
            };
            let mut label = text_owned(o.name.as_str());
            match o.pool {
                Some(p) => {
                    push_text(&mut label, " [");
                    push_number(&mut label, o.cost as u128);
                    push_text(&mut label, " ");
                    push_text(&mut label, pool_text(p));
                    push_text(&mut label, "]");
                    proof {
                        assert(label@ =~= o.name@ + cost_note(*o));
                    }
                },
                None => {
                    proof {
                        assert(label@ =~= o.name@ + cost_note(*o));
                    }
                },
            }
            proof {
                assert(text_view(blocked) == opp_blocked(sim, *o));
            }
            push_row(items, label, blocked, Command::Interact(o.id));
            proof {
                lemma_appended_trans(start, before, items@, opp_rows(sim, k as int), seq![opp_row(sim, *o)]);
            }
        } else {
            proof {
                assert(opp_rows(sim, k as int) + seq![] =~= opp_rows(sim, k as int));
            }
        }
        k = k + 1;
    }
}

/// What can be done with the `k`-th villager, when beside them on this map:
/// talk, and buy shot from one who trades.
pub open spec fn npc_rows_for(sim: &Sim, k: int) -> Seq<(Seq<char>, Option<Seq<char>>, Command)> {
    let spec = sim.world.npcs@[k];
    let st = sim.state.npcs@[k];
    if spec.map == sim.state.current_map && st.alive && !st.fled && beside(sim.state.hunter.pos, st.pos) {
        let talk = (
            "Talk with "@ + spec.name@,
            if st.attacked {
                Some(ui_text(sim, "ui.blocked.npc-refuses"@))
            } else {
                None
            },
            Command::Talk(spec.id),
        );
        let trade = if spec.trades {
            seq![(
                "Buy powder and ball from "@ + spec.name@ + " [2 coin]"@,
                if sim.state.settlement_hostile || st.attacked {
                    Some(ui_text(sim, "ui.blocked.no-trade"@))
                } else if sim.state.hunter.spec_item_count("coin"@) < 2 {
                    Some(ui_text(sim, "ui.blocked.costs-coin"@))
                } else {
                    None
                },
                Command::BuyShot(spec.id),
            )]
        } else {
            seq![]
        };
        seq![talk] + trade
    } else {
        seq![]
    }
}

/// The dealings with the first `n` villagers.
pub open spec fn npc_rows(sim: &Sim, n: int) -> Seq<(Seq<char>, Option<Seq<char>>, Command)>
    decreases n,
{
    if n <= 0 {
        seq![]
    } else {
        npc_rows(sim, n - 1) + npc_rows_for(sim, n - 1)
    }
}

fn push_npcs(sim: &Sim, items: &mut Vec<MenuItem>)
    ensures
        appended(
            old(items)@,
            final(items)@,
            npc_rows(sim, npc_count(sim.world.npcs@, sim.state.npcs@)),
        ),
{
    let specs = &sim.world.npcs;
    let states = &sim.state.npcs;
    let count: usize = if specs.len() <= states.len() {
        specs.len()
    } else {
        states.len()
    };
    let ghost start = items@;
    proof {
        lemma_appended_none(items@);
    }
    let mut k: usize = 0;
    while k < count
        invariant
            k <= count,
            count == npc_count(specs@, states@),
            *specs == sim.world.npcs,
            *states == sim.state.npcs,
            appended(start, items@, npc_rows(sim, k as int)),
        decreases count - k,
    {
        let spec = &specs[k];
        let st = &states[k];
        let ghost before = items@;
        if spec.map == sim.state.current_map && st.alive && !st.fled && is_beside(sim.state.hunter.pos, st.pos) {
            let mut talk = text_owned("Talk with ");
            push_text(&mut talk, spec.name.as_str());
            let refuses = if st.attacked {
                Some(text_owned(sim.catalogue.strings.ui("ui.blocked.npc-refuses")))
            } else {
                None
            };
            push_row(items, talk, refuses, Command::Talk(spec.id));
            let ghost mid = items@;
            if spec.trades {
                let blocked = if sim.state.settlement_hostile || st.attacked {
                    Some(text_owned(sim.catalogue.strings.ui("ui.blocked.no-trade")))
                } else if sim.state.hunter.item_count("coin") < 2 {
                    Some(text_owned(sim.catalogue.strings.ui("ui.blocked.costs-coin")))
                } else {
                    None
                };
                let mut buy = text_owned("Buy powder and ball from ");
                push_text(&mut buy, spec.name.as_str());
                push_text(&mut buy, " [2 coin]");
                push_row(items, buy, blocked, Command::BuyShot(spec.id));
            } else {
                proof {
                    lemma_appended_none(items@);
                }
            }
            proof {
                let rows = npc_rows_for(sim, k as int);
                let talk_row = rows.take(1);
                let rest = rows.skip(1);
                assert(rows =~= talk_row + rest);
                lemma_appended_trans(before, mid, items@, talk_row, rest);
                lemma_appended_trans(start, before, items@, npc_rows(sim, k as int), rows);
            }
        } else {
            proof {
                assert(npc_rows(sim, k as int) + seq![] =~= npc_rows(sim, k as int));
            }
        }
        k = k + 1;
    }
}

/// How often `item` occurs among the first `n` of `inputs`.
pub open spec fn occurrences(inputs: Seq<String>, item: Seq<char>, n: int) -> int
    decreases n,
{
    if n <= 0 {
        0
    } else {
        occurrences(inputs, item, n - 1) + if inputs[n - 1]@ == item {
            1int
        } else {
            0int
        }
    }
}

proof fn lemma_occurrences_bound(inputs: Seq<String>, item: Seq<char>, n: int)
    requires
        0 <= n,
    ensures
        0 <= occurrences(inputs, item, n) <= n,
    decreases n,
{
    if n > 0 {
        lemma_occurrences_bound(inputs, item, n - 1);
    }
}

/// Texts in strictly rising order.
pub open spec fn rising(s: Seq<Seq<char>>) -> bool {
    forall|i: int, j: int| 0 <= i < j < s.len() ==> text_lt(#[trigger] s[i], #[trigger] s[j])
}

/// The kinds of item a recipe takes, each once, in text order.
pub open spec fn input_kinds(inputs: Seq<String>) -> Seq<Seq<char>> {
    choose|s: Seq<Seq<char>>|
        rising(s) && forall|x: Seq<char>| #[trigger] s.contains(x) <==> occurrences(inputs, x, inputs.len() as int) > 0
}

/// Two rising sequences holding the same texts are the same sequence.
proof fn lemma_rising_unique(a: Seq<Seq<char>>, b: Seq<Seq<char>>)
    requires
        rising(a),
        rising(b),
        forall|x: Seq<char>| #[trigger] a.contains(x) <==> b.contains(x),
    ensures
        a == b,
    decreases a.len(),
{
    if a.len() == 0 {
        if b.len() > 0 {
            assert(b.contains(b[0]));
            assert(a.contains(b[0]));
        }
        assert(a =~= b);
    } else {
        assert(a.contains(a[0]));
        assert(b.contains(a[0]));
        assert(b.contains(b[0]));
        assert(a.contains(b[0]));
        if a[0] != b[0] {
            let i = choose|i: int| 0 <= i < b.len() && b[i] == a[0];
            let j = choose|j: int| 0 <= j < a.len() && a[j] == b[0];
            assert(text_lt(b[0], b[i]));
            assert(text_lt(a[0], a[j]));
            lemma_text_lt_trans(a[0], b[0], a[0]);
            lemma_text_lt_irreflexive(a[0]);
        }
        let a1 = a.drop_first();
        let b1 = b.drop_first();
        assert forall|i: int, j: int| 0 <= i < j < a1.len() implies text_lt(#[trigger] a1[i], #[trigger] a1[j]) by {
            assert(a1[i] == a[i + 1] && a1[j] == a[j + 1]);
        }
        assert forall|i: int, j: int| 0 <= i < j < b1.len() implies text_lt(#[trigger] b1[i], #[trigger] b1[j]) by {
            assert(b1[i] == b[i + 1] && b1[j] == b[j + 1]);
        }
        assert forall|x: Seq<char>| #[trigger] a1.contains(x) <==> b1.contains(x) by {
            if a1.contains(x) {
                let k = choose|k: int| 0 <= k < a1.len() && a1[k] == x;
                assert(a[k + 1] == x);
                assert(text_lt(a[0], a[k + 1]));
                lemma_text_lt_irreflexive(x);
                assert(a.contains(x));
                assert(b.contains(x));
                let m = choose|m: int| 0 <= m < b.len() && b[m] == x;
                assert(m != 0);
                assert(b1[m - 1] == x);
            }
            if b1.contains(x) {
                let k = choose|k: int| 0 <= k < b1.len() && b1[k] == x;
                assert(b[k + 1] == x);
                assert(text_lt(b[0], b[k + 1]));
                lemma_text_lt_irreflexive(x);
                assert(b.contains(x));
                assert(a.contains(x));
                let m = choose|m: int| 0 <= m < a.len() && a[m] == x;
                assert(m != 0);
                assert(a1[m - 1] == x);
            }
        }
        lemma_rising_unique(a1, b1);
        assert(a =~= seq![a[0]] + a1);
        assert(b =~= seq![b[0]] + b1);
    }
}

/// How many of each kind of item `inputs` asks for.
fn needed_counts(inputs: &Vec<String>) -> (m: KeyedMap<u64>)
    ensures
        forall|x: Seq<char>| #[trigger] m.contains(x) <==> occurrences(inputs@, x, inputs@.len() as int) > 0,
        forall|x: Seq<char>|
            #[trigger] m.contains(x) ==> m.lookup(x) == Some(occurrences(inputs@, x, inputs@.len() as int) as u64),
{
    let mut m: KeyedMap<u64> = KeyedMap::new();
    let mut j: usize = 0;
    while j < inputs.len()
        invariant
            j <= inputs@.len(),
            forall|x: Seq<char>| #[trigger] m.contains(x) <==> occurrences(inputs@, x, j as int) > 0,
            forall|x: Seq<char>| #[trigger] m.contains(x) ==> m.lookup(x) == Some(occurrences(inputs@, x, j as int) as u64),
        decreases inputs@.len() - j,
    {
        let key = inputs[j].as_str();
        proof {
            lemma_occurrences_bound(inputs@, key@, j as int);
        }
        let count: u64 = match m.get(key) {
            Some(n) => *n + 1,
            None => 1,
        };
        let ghost before = m;
        m.insert(text_owned(key), count);
        proof {
            assert forall|x: Seq<char>| #[trigger] m.contains(x) <==> occurrences(inputs@, x, j + 1) > 0 by {
                if x != key@ {
                    assert(m.lookup(x) == before.lookup(x));
                }
            }
            assert forall|x: Seq<char>| #[trigger] m.contains(x) implies m.lookup(x) == Some(
                occurrences(inputs@, x, j + 1) as u64,
            ) by {
                if x != key@ {
                    assert(m.lookup(x) == before.lookup(x));
                    assert(before.contains(x));
                }
            }
        }
        j = j + 1;
    }
    m
}

/// The recipe lacks `item`: the pack holds fewer than it asks for.
pub open spec fn short_of(sim: &Sim, inputs: Seq<String>, item: Seq<char>) -> bool {
    sim.state.hunter.spec_item_count(item) < occurrences(inputs, item, inputs.len() as int)
}

/// The names of the kinds the recipe lacks, among the first `n` of `kinds`.
pub open spec fn missing_upto(sim: &Sim, inputs: Seq<String>, kinds: Seq<Seq<char>>, n: int) -> Seq<Seq<char>>
    decreases n,
{
    if n <= 0 {
        seq![]
    } else {
        missing_upto(sim, inputs, kinds, n - 1) + if short_of(sim, inputs, kinds[n - 1]) {
            seq![item_label(sim, kinds[n - 1])]
        } else {
            seq![]
        }
    }
}

/// Why a recipe cannot be made yet: what it still lacks, kind by kind in
/// text order.
pub open spec fn craft_blocked(sim: &Sim, inputs: Seq<String>) -> Option<Seq<char>> {
    let kinds = input_kinds(inputs);
    let missing = missing_upto(sim, inputs, kinds, kinds.len() as int);
    if missing.len() == 0 {
        None
    } else {
        Some("Missing: "@ + joined_with(missing, ", "@) + "."@)
    }
}

fn missing_note(sim: &Sim, inputs: &Vec<String>) -> (r: Option<String>)
    ensures
        text_view(r) == craft_blocked(sim, inputs@),
{
    let needed = needed_counts(inputs);
    proof {
        use_type_invariant(&needed);
        lemma_keys_ascending(needed.keys());
        assert forall|x: Seq<char>| #[trigger] needed.keys().contains(x) <==> occurrences(
            inputs@,
            x,
            inputs@.len() as int,
        ) > 0 by {
            if needed.keys().contains(x) {
                let i = choose|i: int| 0 <= i < needed.keys().len() && needed.keys()[i] == x;
                assert(needed.contains(x));
            }
            if needed.contains(x) {
                let i = choose|i: int| 0 <= i < needed.len_spec() && needed.keys()[i] == x;
                assert(needed.keys().contains(x));
            }
        }
        assert(rising(needed.keys()));
        let kinds = input_kinds(inputs@);
        assert(rising(kinds) && forall|x: Seq<char>| #[trigger] kinds.contains(x) <==> occurrences(
            inputs@,
            x,
            inputs@.len() as int,
        ) > 0);
        lemma_rising_unique(kinds, needed.keys());
    }
    let ghost kinds = input_kinds(inputs@);
    let mut names: Vec<String> = Vec::new();
    let mut k: usize = 0;
    while k < needed.len()
        invariant
            k <= needed.len_spec(),
            kinds == needed.keys(),
            keys_well_ordered(needed.keys()),
            forall|x: Seq<char>|
                #[trigger] needed.contains(x) ==> needed.lookup(x) == Some(
                    occurrences(inputs@, x, inputs@.len() as int) as u64,
                ),
            names@.map_values(|s: String| s@) == missing_upto(sim, inputs@, kinds, k as int),
        decreases needed.len_spec() - k,
    {
        let (item, count) = needed.entry(k);
        proof {
            assert forall|m: int| 0 <= m < k implies needed.keys()[m] != item@ by {
                assert(needed.keys()[m] != needed.keys()[k as int]);
            }
            needed.lemma_position(item@, k as int);
            lemma_occurrences_bound(inputs@, item@, inputs@.len() as int);
        }
        let have = sim.state.hunter.item_count(item.as_str());
        let ghost before = names@.map_values(|s: String| s@);
        proof {
            assert(kinds[k as int] == item@);
            assert(needed.contains(item@));
            assert(*count == occurrences(inputs@, item@, inputs@.len() as int) as u64);
            assert(inputs@.len() == inputs.len());
            assert(0 <= occurrences(inputs@, item@, inputs@.len() as int) <= u64::MAX);
            assert(*count as int == occurrences(inputs@, item@, inputs@.len() as int));
            assert(((have as u64) < *count) == short_of(sim, inputs@, kinds[k as int]));
        }
        if (have as u64) < *count {
            let name = match sim.catalogue.items.get(item.as_str()) {
                Some(def) => text_owned(sim.catalogue.strings.get(&def.name)),
                None => text_owned(item.as_str()),
            };
            names.push(name);
            proof {
                assert(names@.map_values(|s: String| s@) =~= before.push(item_label(sim, item@)));
            }
        } else {
            proof {
                assert(before + seq![] =~= before);
            }
        }
        k = k + 1;
        proof {
            assert(names@.map_values(|s: String| s@) =~= missing_upto(sim, inputs@, kinds, k as int));
        }
    }
    if names.len() == 0 {
        None
    } else {
        let mut note = text_owned("Missing: ");
        let list = join_parts(&names, ", ");
        push_text(&mut note, list.as_str());
        push_text(&mut note, ".");
        Some(note)
    }
}

/// The offer to craft the `i`-th recipe, in id order.
pub open spec fn craft_row(sim: &Sim, i: int) -> (Seq<char>, Option<Seq<char>>, Command) {
    let recipes = sim.catalogue.recipes;
    (
        filled(
            sim,
            "ui.action.craft"@,
            seq![("recipe"@, sim.catalogue.strings.resolve(recipes.values()[i].name.0@))],
        ),
        craft_blocked(sim, recipes.values()[i].inputs@),
        Command::Craft { recipe: recipes.entries()[i].0 },
    )
}

/// The first `n` recipes, each as an offer.
pub open spec fn craft_rows(sim: &Sim, n: int) -> Seq<(Seq<char>, Option<Seq<char>>, Command)>
    decreases n,
{
    if n <= 0 {
        seq![]
    } else {
        craft_rows(sim, n - 1).push(craft_row(sim, n - 1))
    }
}

/// Every recipe, when the hunter is at a workstation.
pub open spec fn forge_rows(sim: &Sim) -> Seq<(Seq<char>, Option<Seq<char>>, Command)> {
    if feature_near(here_features(sim), FeatureKind::Workstation, sim.state.hunter.pos) {
        craft_rows(sim, sim.catalogue.recipes.len_spec() as int)
    } else {
        seq![]
    }
}

fn push_forge(sim: &Sim, items: &mut Vec<MenuItem>)
    requires
        interact_readable(sim),
    ensures
        appended(old(items)@, final(items)@, forge_rows(sim)),
{
    let wm = sim.world.map(sim.state.current_map);
    if !is_feature_near(&wm.features, FeatureKind::Workstation, sim.state.hunter.pos) {
        proof {
            lemma_appended_none(items@);
        }
        return;
    }
    let recipes = &sim.catalogue.recipes;
    let ghost start = items@;
    proof {
        lemma_appended_none(items@);
    }
    let mut k: usize = 0;
    while k < recipes.len()
        invariant
            k <= recipes.len_spec(),
            *recipes == sim.catalogue.recipes,
            appended(start, items@, craft_rows(sim, k as int)),
        decreases recipes.len_spec() - k,
    {
        let (id, recipe) = recipes.entry(k);
        let ghost before = items@;
        let recipe_name = sim.catalogue.strings.get(&recipe.name);
        let args = [("recipe", recipe_name)];
        let label = sim.catalogue.strings.fill(&StringId(text_owned("ui.action.craft")), &args);
        proof {
            assert(args_view(args@) =~= seq![("recipe"@, sim.catalogue.strings.resolve(recipe.name.0@))]);
        }
        let blocked = missing_note(sim, &recipe.inputs);
        let command = Command::Craft { recipe: text_owned(id.as_str()) };
        push_row(items, label, blocked, command);
        proof {
            assert(recipes.keys()[k as int] == recipes.entries()[k as int].0@);
            assert(*recipe == recipes.values()[k as int]);
            let row = craft_row(sim, k as int);
            let pushed = seq![(label@, text_view(blocked), command)];
            assert(pushed[0] == (label@, text_view(blocked), command));
            assert(row_is(items@[before.len() as int], pushed[0]));
            assert(row_is(items@[before.len() as int], row));
            let one = seq![row];
            assert(one[0] == row);
            assert(appended(before, items@, one));
            lemma_appended_trans(start, before, items@, craft_rows(sim, k as int), seq![craft_row(sim, k as int)]);
            assert(craft_rows(sim, k as int) + seq![craft_row(sim, k as int)] =~= craft_rows(sim, k + 1));
        }
        k = k + 1;
    }
}

/// The menu's offers, section by section: travel, opportunities, graves,
/// forceable terrain, the altar, the workstation, the villagers beside the
/// hunter, and naming the quarry.
pub open spec fn interact_rows(sim: &Sim) -> Seq<(Seq<char>, Option<Seq<char>>, Command)> {
    travel_rows(sim) + opp_rows(sim, sim.world.opportunities@.len() as int) + grave_rows(
        sim,
        here_features(sim).len() as int,
    ) + force_rows(sim, 8) + altar_rows(sim) + forge_rows(sim) + npc_rows(
        sim,
        npc_count(sim.world.npcs@, sim.state.npcs@),
    ) + name_rows(sim)
}

/// Everything the hunter can do where she stands, blocked offers included
/// with their reasons.
pub fn interact_items(sim: &Sim) -> (r: Vec<MenuItem>)
    requires
        interact_readable(sim),
    ensures
        rows_shown(r@, interact_rows(sim)),
{
    let mut items: Vec<MenuItem> = Vec::new();
    let ghost s0 = items@;
    push_travel(sim, &mut items);
    let ghost s1 = items@;
    push_opportunities(sim, &mut items);
    let ghost s2 = items@;
    push_graves(sim, &mut items);
    let ghost s3 = items@;
    push_force(sim, &mut items);
    let ghost s4 = items@;
    push_altar(sim, &mut items);
    let ghost s5 = items@;
    push_forge(sim, &mut items);
    let ghost s6 = items@;
    push_npcs(sim, &mut items);
    let ghost s7 = items@;
    push_name(sim, &mut items);
    proof {
        let r1 = travel_rows(sim);
        let r2 = opp_rows(sim, sim.world.opportunities@.len() as int);
        let r3 = grave_rows(sim, here_features(sim).len() as int);
        let r4 = force_rows(sim, 8);
        let r5 = altar_rows(sim);
        let r6 = forge_rows(sim);
        let r7 = npc_rows(sim, npc_count(sim.world.npcs@, sim.state.npcs@));
        let r8 = name_rows(sim);
        lemma_appended_trans(s0, s1, s2, r1, r2);
        lemma_appended_trans(s0, s2, s3, r1 + r2, r3);
        lemma_appended_trans(s0, s3, s4, r1 + r2 + r3, r4);
        lemma_appended_trans(s0, s4, s5, r1 + r2 + r3 + r4, r5);
        lemma_appended_trans(s0, s5, s6, r1 + r2 + r3 + r4 + r5, r6);
        lemma_appended_trans(s0, s6, s7, r1 + r2 + r3 + r4 + r5 + r6, r7);
        lemma_appended_trans(s0, s7, items@, r1 + r2 + r3 + r4 + r5 + r6 + r7, r8);
        let all = interact_rows(sim);
        assert forall|j: int| 0 <= j < all.len() implies row_is(items@[j], #[trigger] all[j]) by {
            assert(items@[s0.len() + j] == items@[j]);
        }
    }
    items
}

/// What the interact key does.
#[derive(Debug, Clone, PartialEq, Eq)]
pub enum InteractOutcome {
    /// Nothing to do here; the status line says so.
    Nothing { status: String },
    /// The one offer here, unblocked, is taken at once.
    Take(Command),
    /// The offers are laid out in a menu.
    Choose(Modal),
}

/// The interact key: with nothing here the status line says so; a single
/// unblocked offer is taken at once; otherwise a menu of every offer opens
/// on its first row.
pub fn open_interact_menu(sim: &Sim) -> (r: InteractOutcome)
    requires
        interact_readable(sim),
    ensures
        interact_rows(sim).len() == 0 ==> (r matches InteractOutcome::Nothing { status } && status@ == ui_text(
            sim,
            "ui.status.nothing-here"@,
        )),
        interact_rows(sim).len() == 1 && interact_rows(sim)[0].1 is None ==> (r matches InteractOutcome::Take(c)
            && same_command(c, interact_rows(sim)[0].2)),
        interact_rows(sim).len() > 1 || (interact_rows(sim).len() == 1 && interact_rows(sim)[0].1 is Some) ==> (
        r matches InteractOutcome::Choose(Modal::Menu { title, items, selected }) && title@ == ui_text(
            sim,
            "ui.panel.actions"@,
        ) && selected == 0 && rows_shown(items@, interact_rows(sim))),
{
    let mut items = interact_items(sim);
    if items.len() == 0 {
        return InteractOutcome::Nothing { status: text_owned(sim.catalogue.strings.ui("ui.status.nothing-here")) };
    }
    if items.len() == 1 && items[0].blocked.is_none() {
        proof {
            assert(row_is(items@[0], interact_rows(sim)[0]));
        }
        let item = items.remove(0);
        match item.action {
            MenuAction::Do(command) => {
                return InteractOutcome::Take(command);
            },
            MenuAction::Nothing => {
                return InteractOutcome::Nothing {
                    status: text_owned(sim.catalogue.strings.ui("ui.status.nothing-here")),
                };
            },
        }
    }
    InteractOutcome::Choose(
        Modal::Menu { title: text_owned(sim.catalogue.strings.ui("ui.panel.actions")), items, selected: 0 },
    )
}

} // verus!
