//! The run frame: everything the two clients draw while a run is under way,
//! put together from the run so neither renderer computes anything.
use vstd::prelude::*;

use crate::client::{
    action_view, fire_rows, head_rows, holds_text, inspect, inspect_lines, inspect_readable, item_rows, joined_with,
    move_rows, screen_rows, text_view, ui_text, available_actions, ActionEntry, MenuItem, Modal, SightEntry,
};
use crate::command::Target;
use crate::events::{EventKind, LogEvent};
use crate::geometry::{spec_in_bounds, Point};
use crate::sim::{actor_name_text, actors_measurable, lemma_rank_bound, aimable_upto, key_rank, rank_upto, sight_key, sight_readable, sight_view, sights, Sim};
use crate::state::{Actor, ActorId};
use crate::strings::{args_view, fill_all, StringId};
use crate::text::{decimal, push_number, push_text, text_owned};
use crate::view::{
    cells_readable, event_kind_label, legend_rows, map_legend, run_cells, spec_cells, spec_event_kind_label, OverlayView,
    LegendEntry, PackItem, RunView,
};
use crate::world::tile_index;

verus! {

/// `id` resolved and filled with `args`, one after another.
pub open spec fn filled(sim: &Sim, id: Seq<char>, args: Seq<(Seq<char>, Seq<char>)>) -> Seq<char> {
    fill_all(sim.catalogue.strings.resolve(id), args)
}

/// The name of the map the hunter stands on.
pub open spec fn place_name(sim: &Sim) -> Seq<char> {
    sim.world.maps@[sim.state.current_map.0 as int].name@
}

/// The header line: where the hunter is and which seed made the run.
pub open spec fn header_text(sim: &Sim, seed: u64) -> Seq<char> {
    filled(sim, "ui.status.header"@, seq![("place"@, place_name(sim)), ("seed"@, decimal(seed as nat))])
}

/// The day shown: the clock, held at the last travel day.
pub open spec fn shown_day(sim: &Sim) -> nat {
    let total = sim.catalogue.balance.clock.travel_turns;
    if sim.state.clock <= total {
        sim.state.clock as nat
    } else {
        total as nat
    }
}

/// The clock line, with the final hunt called out once it has begun.
pub open spec fn clock_text(sim: &Sim) -> Seq<char> {
    filled(
        sim,
        "ui.clock.day"@,
        seq![("day"@, decimal(shown_day(sim))), ("total"@, decimal(sim.catalogue.balance.clock.travel_turns as nat))],
    ) + if sim.state.final_hunt {
        "  THE HUNT IS HERE"@
    } else {
        seq![]
    }
}

pub open spec fn health_text(sim: &Sim) -> Seq<char> {
    filled(
        sim,
        "ui.status.health"@,
        seq![("current"@, decimal(sim.state.hunter.hp as nat)), ("max"@, decimal(sim.state.hunter.max_hp as nat))],
    )
}

/// Mystic points, with any favour over the cap shown as `+bonus`.
pub open spec fn mystic_text(sim: &Sim) -> Seq<char> {
    let h = sim.state.hunter;
    if h.mystic_bonus > 0 {
        decimal(h.mystic as nat) + "+"@ + decimal(h.mystic_bonus as nat)
    } else {
        decimal(h.mystic as nat)
    }
}

pub open spec fn pools_text(sim: &Sim) -> Seq<char> {
    let h = sim.state.hunter;
    let d = sim.catalogue.hunter;
    filled(
        sim,
        "ui.status.pools"@,
        seq![
            ("lore"@, decimal(h.lore as nat)),
            ("lore_cap"@, decimal(d.lore_cap as nat)),
            ("social"@, decimal(h.social as nat)),
            ("social_cap"@, decimal(d.social_cap as nat)),
            ("mystic"@, mystic_text(sim)),
            ("physical"@, decimal(h.physical as nat)),
            ("physical_cap"@, decimal(d.physical_cap as nat)),
        ],
    )
}

pub open spec fn stamina_line_text(sim: &Sim) -> Seq<char> {
    filled(
        sim,
        "ui.status.stamina"@,
        seq![
            ("current"@, decimal(sim.state.hunter.stamina as nat)),
            ("max"@, decimal(sim.catalogue.hunter.stamina_cap as nat)),
        ],
    )
}

/// The decimal form of `n`.
fn number_text(n: u128) -> (r: String)
    ensures
        r@ == decimal(n as nat),
{
    let mut s = String::new();
    push_number(&mut s, n);
    s
}

fn fill_ui(sim: &Sim, id: &str, args: &[(&str, &str)]) -> (r: String)
    ensures
        r@ == filled(sim, id@, args_view(args@)),
{
    sim.catalogue.strings.fill(&StringId(text_owned(id)), args)
}

fn header_line(sim: &Sim, seed: u64) -> (r: String)
    requires
        (sim.state.current_map.0 as int) < sim.world.maps@.len(),
    ensures
        r@ == header_text(sim, seed),
{
    let place = &sim.world.map(sim.state.current_map).name;
    let seed_text = number_text(seed as u128);
    let args = [("place", place.as_str()), ("seed", seed_text.as_str())];
    let r = fill_ui(sim, "ui.status.header", &args);
    proof {
        assert(args_view(args@) =~= seq![("place"@, place_name(sim)), ("seed"@, decimal(seed as nat))]);
    }
    r
}

fn clock_line(sim: &Sim) -> (r: String)
    ensures
        r@ == clock_text(sim),
{
    let total = sim.catalogue.balance.clock.travel_turns;
    let day = if sim.state.clock <= total {
        sim.state.clock
    } else {
        total
    };
    let day_text = number_text(day as u128);
    let total_text = number_text(total as u128);
    let args = [("day", day_text.as_str()), ("total", total_text.as_str())];
    let mut r = fill_ui(sim, "ui.clock.day", &args);
    proof {
        assert(args_view(args@) =~= seq![("day"@, decimal(shown_day(sim))), ("total"@, decimal(total as nat))]);
    }
    if sim.state.final_hunt {
        push_text(&mut r, "  THE HUNT IS HERE");
    } else {
        proof {
            assert(r@ =~= r@ + Seq::<char>::empty());
        }
    }
    r
}

fn health_line(sim: &Sim) -> (r: String)
    ensures
        r@ == health_text(sim),
{
    let current = number_text(sim.state.hunter.hp as u128);
    let max = number_text(sim.state.hunter.max_hp as u128);
    let args = [("current", current.as_str()), ("max", max.as_str())];
    let r = fill_ui(sim, "ui.status.health", &args);
    proof {
        assert(args_view(args@) =~= seq![
            ("current"@, decimal(sim.state.hunter.hp as nat)),
            ("max"@, decimal(sim.state.hunter.max_hp as nat)),
        ]);
    }
    r
}

fn pools_line(sim: &Sim) -> (r: String)
    ensures
        r@ == pools_text(sim),
{
    let h = &sim.state.hunter;
    let d = &sim.catalogue.hunter;
    let lore = number_text(h.lore as u128);
    let lore_cap = number_text(d.lore_cap as u128);
    let social = number_text(h.social as u128);
    let social_cap = number_text(d.social_cap as u128);
    let mut mystic = number_text(h.mystic as u128);
    if h.mystic_bonus > 0 {
        push_text(&mut mystic, "+");
        push_number(&mut mystic, h.mystic_bonus as u128);
    }
    let physical = number_text(h.physical as u128);
    let physical_cap = number_text(d.physical_cap as u128);
    let args = [
        ("lore", lore.as_str()),
        ("lore_cap", lore_cap.as_str()),
        ("social", social.as_str()),
        ("social_cap", social_cap.as_str()),
        ("mystic", mystic.as_str()),
        ("physical", physical.as_str()),
        ("physical_cap", physical_cap.as_str()),
    ];
    let r = fill_ui(sim, "ui.status.pools", &args);
    proof {
        assert(mystic@ == mystic_text(sim));
        assert(args_view(args@) =~= seq![
            ("lore"@, decimal(h.lore as nat)),
            ("lore_cap"@, decimal(d.lore_cap as nat)),
            ("social"@, decimal(h.social as nat)),
            ("social_cap"@, decimal(d.social_cap as nat)),
            ("mystic"@, mystic_text(sim)),
            ("physical"@, decimal(h.physical as nat)),
            ("physical_cap"@, decimal(d.physical_cap as nat)),
        ]);
    }
    r
}

fn stamina_line(sim: &Sim) -> (r: String)
    ensures
        r@ == stamina_line_text(sim),
{
    let current = number_text(sim.state.hunter.stamina as u128);
    let max = number_text(sim.catalogue.hunter.stamina_cap as u128);
    let args = [("current", current.as_str()), ("max", max.as_str())];
    let r = fill_ui(sim, "ui.status.stamina", &args);
    proof {
        assert(args_view(args@) =~= seq![
            ("current"@, decimal(sim.state.hunter.stamina as nat)),
            ("max"@, decimal(sim.catalogue.hunter.stamina_cap as nat)),
        ]);
    }
    r
}

/// What an item is called: its catalogue name, or its id when the
/// catalogue lacks it.
pub open spec fn item_label(sim: &Sim, item: Seq<char>) -> Seq<char> {
    match sim.catalogue.items.lookup(item) {
        Some(def) => sim.catalogue.strings.resolve(def.name.0@),
        None => item,
    }
}

/// A pack line: the item's name, with the count after it when more than one
/// is carried.
pub open spec fn pack_label(sim: &Sim, item: Seq<char>, count: u16) -> Seq<char> {
    if count > 1 {
        item_label(sim, item) + " x"@ + decimal(count as nat)
    } else {
        item_label(sim, item)
    }
}

/// What an item is for, or nothing for an item the catalogue lacks.
pub open spec fn pack_description(sim: &Sim, item: Seq<char>) -> Seq<char> {
    match sim.catalogue.items.lookup(item) {
        Some(def) => sim.catalogue.strings.resolve(def.description.0@),
        None => seq![],
    }
}

/// `items` is the pack, item by item in id order.
pub open spec fn pack_shown(sim: &Sim, items: Seq<PackItem>) -> bool {
    &&& items.len() == sim.state.hunter.inventory.len_spec()
    &&& forall|i: int|
        0 <= i < items.len() ==> (#[trigger] items[i]).label@ == pack_label(
            sim,
            sim.state.hunter.inventory.keys()[i],
            sim.state.hunter.inventory.values()[i],
        ) && items[i].description@ == pack_description(sim, sim.state.hunter.inventory.keys()[i])
}

/// The pack, item by item in id order.
fn pack_items(sim: &Sim) -> (r: Vec<PackItem>)
    ensures
        pack_shown(sim, r@),
{
    let inv = &sim.state.hunter.inventory;
    let mut out: Vec<PackItem> = Vec::new();
    let mut k: usize = 0;
    while k < inv.len()
        invariant
            k <= inv.len_spec(),
            *inv == sim.state.hunter.inventory,
            out@.len() == k,
            forall|i: int|
                0 <= i < k ==> (#[trigger] out@[i]).label@ == pack_label(sim, inv.keys()[i], inv.values()[i])
                    && out@[i].description@ == pack_description(sim, inv.keys()[i]),
        decreases inv.len_spec() - k,
    {
        let (item, count) = inv.entry(k);
        let def = sim.catalogue.items.get(item.as_str());
        let mut label = match def {
            Some(d) => text_owned(sim.catalogue.strings.get(&d.name)),
            None => text_owned(item.as_str()),
        };
        if *count > 1 {
            push_text(&mut label, " x");
            push_number(&mut label, *count as u128);
        }
        let description = match def {
            Some(d) => text_owned(sim.catalogue.strings.get(&d.description)),
            None => String::new(),
        };
        proof {
            assert(label@ == pack_label(sim, item@, *count));
        }
        out.push(PackItem { label, description });
        k = k + 1;
    }
    out
}

/// Where the log's last eight lines begin.
pub open spec fn tail_start(log: Seq<LogEvent>) -> int {
    if log.len() > 8 {
        log.len() - 8
    } else {
        0
    }
}

/// A log line as shown: its kind's tag, a space, then its prose.
pub open spec fn tagged_line(sim: &Sim, e: LogEvent) -> (EventKind, Seq<char>) {
    (e.kind, sim.catalogue.strings.resolve(spec_event_kind_label(e.kind)) + " "@ + e.text@)
}

/// `lines` is the last eight lines of the log, oldest first, each tagged
/// with its kind.
pub open spec fn tail_shown(sim: &Sim, lines: Seq<(EventKind, String)>) -> bool {
    &&& lines.len() == sim.state.log@.len() - tail_start(sim.state.log@)
    &&& forall|i: int|
        0 <= i < lines.len() ==> ((#[trigger] lines[i]).0, lines[i].1@) == tagged_line(
            sim,
            sim.state.log@[tail_start(sim.state.log@) + i],
        )
}

/// The last eight lines of the log, oldest first, each tagged with its kind.
fn log_tail(sim: &Sim) -> (r: Vec<(EventKind, String)>)
    ensures
        tail_shown(sim, r@),
{
    let log = &sim.state.log;
    let start: usize = if log.len() > 8 {
        log.len() - 8
    } else {
        0
    };
    let mut out: Vec<(EventKind, String)> = Vec::new();
    let mut k: usize = start;
    while k < log.len()
        invariant
            start <= k <= log@.len(),
            start == tail_start(log@),
            *log == sim.state.log,
            out@.len() == k - start,
            forall|i: int|
                0 <= i < out@.len() ==> ((#[trigger] out@[i]).0, out@[i].1@) == tagged_line(sim, log@[start + i]),
        decreases log@.len() - k,
    {
        let event = &log[k];
        let mut line = text_owned(sim.catalogue.strings.ui(event_kind_label(event.kind)));
        push_text(&mut line, " ");
        push_text(&mut line, event.text.as_str());
        out.push((event.kind, line));
        k = k + 1;
    }
    out
}

/// The decimal form of `n`, with a minus sign when it is negative.
pub open spec fn signed_decimal(n: int) -> Seq<char> {
    if n < 0 {
        "-"@ + decimal((-n) as nat)
    } else {
        decimal(n as nat)
    }
}

fn push_signed(s: &mut String, n: i16)
    ensures
        final(s)@ == old(s)@ + signed_decimal(n as int),
{
    if n < 0 {
        push_text(s, "-");
        let m: i32 = -(n as i32);
        push_number(s, m as u128);
        proof {
            assert(final(s)@ =~= old(s)@ + signed_decimal(n as int));
        }
    } else {
        push_number(s, n as u128);
    }
}

/// The first actor of `actors`, from index `k` on, with identity `id`.
pub open spec fn actor_from(actors: Seq<Actor>, id: ActorId, k: int) -> Option<Actor>
    decreases actors.len() - k,
{
    if k < 0 || k >= actors.len() {
        None
    } else if actors[k].id == id {
        Some(actors[k])
    } else {
        actor_from(actors, id, k + 1)
    }
}

proof fn lemma_actor_from_member(actors: Seq<Actor>, id: ActorId, k: int)
    requires
        actor_from(actors, id, k) is Some,
    ensures
        exists|j: int| 0 <= j < actors.len() && #[trigger] actors[j] == actor_from(actors, id, k)->0,
    decreases actors.len() - k,
{
    if actors[k].id != id {
        lemma_actor_from_member(actors, id, k + 1);
    } else {
        assert(actors[k] == actor_from(actors, id, k)->0);
    }
}

fn find_actor<'a>(actors: &'a Vec<Actor>, id: ActorId) -> (r: Option<&'a Actor>)
    ensures
        r == match actor_from(actors@, id, 0) {
            Some(a) => Some(&a),
            None => None::<&Actor>,
        },
{
    let mut k: usize = 0;
    while k < actors.len()
        invariant
            k <= actors@.len(),
            actor_from(actors@, id, 0) == actor_from(actors@, id, k as int),
        decreases actors@.len() - k,
    {
        if actors[k].id == id {
            return Some(&actors[k]);
        }
        k = k + 1;
    }
    None
}

/// A hostile as the targeting list names it: its kind and health, or `?`
/// when no actor has its identity.
pub open spec fn target_name(sim: &Sim, t: Target) -> Seq<char> {
    match t {
        Target::Actor(id) => match actor_from(sim.state.actors@, id, 0) {
            Some(a) => actor_name_text(sim, a.kind) + " ("@ + decimal(a.hp as nat) + "/"@ + decimal(a.max_hp as nat)
                + ")"@,
            None => "?"@,
        },
        Target::Npc(n) => if (n.0 as int) < sim.world.npcs@.len() {
            sim.world.npcs@[n.0 as int].name@
        } else {
            "?"@
        },
    }
}

/// A row of the targeting list: who, then where.
pub open spec fn target_label(sim: &Sim, t: (Target, Point)) -> Seq<char> {
    target_name(sim, t.0) + " at "@ + signed_decimal(t.1.x as int) + ","@ + signed_decimal(t.1.y as int)
}

/// Every actor that is the villain has the villain's description to name it by.
pub open spec fn villain_named(sim: &Sim) -> bool {
    forall|k: int| 0 <= k < sim.state.actors@.len() && (#[trigger] sim.state.actors@[k]).kind is Villain ==> sim.has_villain_def()
}

fn target_row(sim: &Sim, t: &(Target, Point)) -> (r: String)
    requires
        villain_named(sim),
    ensures
        r@ == target_label(sim, *t),
{
    let mut name = match t.0 {
        Target::Actor(id) => match find_actor(&sim.state.actors, id) {
            Some(a) => {
                proof {
                    lemma_actor_from_member(sim.state.actors@, id, 0);
                    let k = choose|k: int| 0 <= k < sim.state.actors@.len() && #[trigger] sim.state.actors@[k] == *a;
                    assert(sim.state.actors@[k].kind is Villain ==> sim.has_villain_def());
                }
                let mut n = sim.actor_name(&a.kind);
                push_text(&mut n, " (");
                push_number(&mut n, a.hp as u128);
                push_text(&mut n, "/");
                push_number(&mut n, a.max_hp as u128);
                push_text(&mut n, ")");
                n
            },
            None => text_owned("?"),
        },
        Target::Npc(n) => if (n.0 as usize) < sim.world.npcs.len() {
            text_owned(sim.world.npc(n).name.as_str())
        } else {
            text_owned("?")
        },
    };
    push_text(&mut name, " at ");
    push_signed(&mut name, t.1.x);
    push_text(&mut name, ",");
    push_signed(&mut name, t.1.y);
    name
}

/// An overlay's rows as texts.
pub open spec fn overlay_rows(items: Seq<(String, Option<String>)>) -> Seq<(Seq<char>, Option<Seq<char>>)> {
    items.map_values(|it: (String, Option<String>)| (it.0@, text_view(it.1)))
}

/// A menu's rows as texts: each label with its blocked reason.
pub open spec fn menu_rows(items: Seq<MenuItem>) -> Seq<(Seq<char>, Option<Seq<char>>)> {
    items.map_values(|it: MenuItem| (it.label@, text_view(it.blocked)))
}

/// A confirmation's title: the prompt, then its detail when it has one.
pub open spec fn confirm_title(prompt: Seq<char>, detail: Option<String>) -> Seq<char> {
    match detail {
        Some(d) => prompt + " "@ + d@,
        None => prompt,
    }
}

/// The targets in sight, in the order the targeting list shows them.
pub open spec fn sight_targets(sim: &Sim) -> Seq<(Target, Point)> {
    aimable_upto(sim.state, sim.state.actors@.len() as int)
}

/// The overlay a modal is drawn as. The targeting list is pinned by where
/// each target in sight lands once sorted (see `fire_targets`).
pub open spec fn overlay_shown(sim: &Sim, m: Modal, o: OverlayView) -> bool {
    match m {
        Modal::FireTarget { silver, selected } => {
            &&& o.title@ == ui_text(
                sim,
                if silver {
                    "ui.target.silver-shot"@
                } else {
                    "ui.target.fire"@
                },
            )
            &&& o.selected == selected
            &&& o.items@.len() == sight_targets(sim).len()
            &&& forall|k: int|
                0 <= k < sight_targets(sim).len() ==> overlay_rows(o.items@)[rank_upto(
                    sight_targets(sim),
                    sim.state.hunter.pos,
                    k,
                    sight_targets(sim).len() as int,
                )] == (target_label(sim, #[trigger] sight_targets(sim)[k]), None::<Seq<char>>)
        },
        Modal::SprintDirection => o.title@ == ui_text(sim, "ui.direction.sprint"@) && o.items@.len() == 0 && o.selected
            == 0,
        Modal::SnareDirection => o.title@ == ui_text(sim, "ui.direction.snare"@) && o.items@.len() == 0 && o.selected
            == 0,
        Modal::Menu { title, items, selected } => o.title@ == title@ && overlay_rows(o.items@) == menu_rows(items@)
            && o.selected == selected,
        Modal::Confirm { prompt, detail, selected, .. } => o.title@ == confirm_title(prompt@, detail) && overlay_rows(
            o.items@,
        ) == seq![(ui_text(sim, "ui.confirm.yes"@), None::<Seq<char>>), (ui_text(sim, "ui.confirm.no"@), None)]
            && o.selected == selected,
    }
}

fn opt_text(o: &Option<String>) -> (r: Option<String>)
    ensures
        text_view(r) == text_view(*o),
{
    match o {
        Some(t) => Some(text_owned(t.as_str())),
        None => None,
    }
}

/// The overlay for the modal in progress.
pub fn overlay(sim: &Sim, modal: &Modal) -> (r: OverlayView)
    requires
        sim.state.visible@.len() >= 640,
        actors_measurable(sim.state),
        villain_named(sim),
    ensures
        overlay_shown(sim, *modal, r),
{
    match modal {
        Modal::FireTarget { silver, selected } => {
            let targets = sim.fire_targets();
            let mut items: Vec<(String, Option<String>)> = Vec::new();
            let mut k: usize = 0;
            while k < targets.len()
                invariant
                    k <= targets@.len(),
                    villain_named(sim),
                    items@.len() == k,
                    forall|i: int|
                        0 <= i < k ==> overlay_rows(items@)[i] == (target_label(sim, #[trigger] targets@[i]), None::<
                            Seq<char>,
                        >),
                decreases targets@.len() - k,
            {
                let row = target_row(sim, &targets[k]);
                items.push((row, None));
                k = k + 1;
            }
            let title = if *silver {
                text_owned(sim.catalogue.strings.ui("ui.target.silver-shot"))
            } else {
                text_owned(sim.catalogue.strings.ui("ui.target.fire"))
            };
            let r = OverlayView { title, items, selected: *selected };
            proof {
                let c = sight_targets(sim);
                assert forall|k: int| 0 <= k < c.len() implies overlay_rows(r.items@)[rank_upto(
                    c,
                    sim.state.hunter.pos,
                    k,
                    c.len() as int,
                )] == (target_label(sim, #[trigger] c[k]), None::<Seq<char>>) by {
                    lemma_rank_bound(c, sim.state.hunter.pos, k, c.len() as int);
                    let j = rank_upto(c, sim.state.hunter.pos, k, c.len() as int);
                    assert(targets@[j] == c[k]);
                }
            }
            r
        },
        Modal::SprintDirection => OverlayView {
            title: text_owned(sim.catalogue.strings.ui("ui.direction.sprint")),
            items: Vec::new(),
            selected: 0,
        },
        Modal::SnareDirection => OverlayView {
            title: text_owned(sim.catalogue.strings.ui("ui.direction.snare")),
            items: Vec::new(),
            selected: 0,
        },
        Modal::Menu { title, items, selected } => {
            let mut rows: Vec<(String, Option<String>)> = Vec::new();
            let mut k: usize = 0;
            while k < items.len()
                invariant
                    k <= items@.len(),
                    overlay_rows(rows@) == menu_rows(items@.take(k as int)),
                decreases items@.len() - k,
            {
                rows.push((text_owned(items[k].label.as_str()), opt_text(&items[k].blocked)));
                proof {
                    assert(menu_rows(items@.take(k + 1)) =~= menu_rows(items@.take(k as int)).push(
                        (items@[k as int].label@, text_view(items@[k as int].blocked)),
                    ));
                }
                k = k + 1;
                proof {
                    assert(overlay_rows(rows@) =~= menu_rows(items@.take(k as int)));
                }
            }
            proof {
                assert(items@.take(k as int) =~= items@);
            }
            OverlayView { title: text_owned(title.as_str()), items: rows, selected: *selected }
        },
        Modal::Confirm { prompt, detail, selected, .. } => {
            let mut title = text_owned(prompt.as_str());
            match detail {
                Some(d) => {
                    push_text(&mut title, " ");
                    push_text(&mut title, d.as_str());
                },
                None => {},
            }
            let mut rows: Vec<(String, Option<String>)> = Vec::new();
            rows.push((text_owned(sim.catalogue.strings.ui("ui.confirm.yes")), None));
            rows.push((text_owned(sim.catalogue.strings.ui("ui.confirm.no")), None));
            let r = OverlayView { title, items: rows, selected: *selected };
            proof {
                assert(overlay_rows(r.items@) =~= seq![
                    (ui_text(sim, "ui.confirm.yes"@), None::<Seq<char>>),
                    (ui_text(sim, "ui.confirm.no"@), None),
                ]);
            }
            r
        },
    }
}

/// `entries` is everything in sight: each sight lands where its place in
/// the order puts it (see `Sim::in_sight`).
pub open spec fn sight_shown(sim: &Sim, entries: Seq<SightEntry>) -> bool {
    &&& entries.len() == sights(sim).len()
    &&& forall|k: int|
        0 <= k < sights(sim).len() ==> sight_view(
            entries[key_rank(sights(sim).map_values(|v| sight_key(sim.state.hunter.pos, v)), k, sights(sim).len() as int)],
        ) == #[trigger] sights(sim)[k]
}

/// `actions` is the action panel: the rows for where the hunter stands,
/// then firing, moving, items and the other screens.
pub open spec fn actions_shown(sim: &Sim, look: Option<Point>, resume: Option<Point>, actions: Seq<ActionEntry>) -> bool {
    actions.map_values(|e: ActionEntry| action_view(e)) == head_rows(sim, look, resume) + fire_rows(sim) + move_rows(sim)
        + item_rows(sim) + screen_rows(sim)
}

/// `legend` is the map key, glyph by glyph.
pub open spec fn legend_shown(sim: &Sim, legend: Seq<LegendEntry>) -> bool {
    &&& legend.len() == legend_rows().len()
    &&& forall|i: int|
        0 <= i < legend.len() ==> (#[trigger] legend[i]).glyph == legend_rows()[i].0 && legend[i].meaning@
            == sim.catalogue.strings.resolve(legend_rows()[i].1)
}

/// `text` is what the look panel says of `p`: nothing off the map, a note
/// for ground not yet explored, and otherwise what stands there.
pub open spec fn inspect_shown(sim: &Sim, p: Point, text: Option<String>) -> bool {
    &&& !spec_in_bounds(p) ==> text is None
    &&& spec_in_bounds(p) && !sim.state.seen@[sim.state.current_map.0 as int]@[tile_index(p)] ==> holds_text(
        text,
        ui_text(sim, "ui.inspect.unexplored"@),
    )
    &&& spec_in_bounds(p) && sim.state.seen@[sim.state.current_map.0 as int]@[tile_index(p)] ==> holds_text(
        text,
        joined_with(inspect_lines(sim, p), " \u{2014} "@),
    )
}

/// `r` is the run frame: the map grid, the hunter's lines, the pack, what
/// is in sight, the action panel, the log's tail, the look panel, the map
/// key and the overlay of the modal in progress.
pub open spec fn run_shown(
    sim: &Sim,
    seed: u64,
    modal: Option<Modal>,
    hint: Option<String>,
    look: Option<Point>,
    resume: Option<Point>,
    looking: bool,
    r: RunView,
) -> bool {
    &&& r.cells@ == spec_cells(sim)
    &&& r.header@ == header_text(sim, seed)
    &&& r.clock_line@ == clock_text(sim)
    &&& r.health_line@ == health_text(sim)
    &&& r.pools_line@ == pools_text(sim)
    &&& r.stamina_line@ == stamina_line_text(sim)
    &&& pack_shown(sim, r.inventory@)
    &&& sight_shown(sim, r.in_sight@)
    &&& r.hint == hint
    &&& actions_shown(sim, look, resume, r.actions@)
    &&& tail_shown(sim, r.log_tail@)
    &&& r.cursor == look
    &&& r.looking == looking
    &&& look is None ==> r.inspect is None
    &&& look matches Some(p) ==> inspect_shown(sim, p, r.inspect)
    &&& legend_shown(sim, r.legend@)
    &&& modal is None <==> r.overlay is None
    &&& modal matches Some(m) ==> r.overlay matches Some(o) && overlay_shown(sim, m, o)
}

/// What the run frame needs to be read without a missing piece.
pub open spec fn frame_readable(sim: &Sim, look: Option<Point>) -> bool {
    &&& cells_readable(sim)
    &&& sight_readable(sim)
    &&& villain_named(sim)
    &&& look matches Some(p) ==> inspect_readable(sim, p)
}

/// The run frame.
pub fn run_view(
    sim: &Sim,
    seed: u64,
    modal: &Option<Modal>,
    hint: Option<String>,
    look: Option<Point>,
    resume: Option<Point>,
    looking: bool,
) -> (r: RunView)
    requires
        frame_readable(sim, look),
    ensures
        run_shown(sim, seed, *modal, hint, look, resume, looking, r),
{
    let cells = run_cells(sim);
    let header = header_line(sim, seed);
    let clock = clock_line(sim);
    let health = health_line(sim);
    let pools = pools_line(sim);
    let stamina = stamina_line(sim);
    let inventory = pack_items(sim);
    let in_sight = sim.in_sight();
    let actions = available_actions(sim, look, resume);
    let tail = log_tail(sim);
    let inspect_text = match look {
        Some(p) => inspect(sim, p),
        None => None,
    };
    let legend = map_legend(&sim.catalogue.strings);
    let shown = match modal {
        Some(m) => Some(overlay(sim, m)),
        None => None,
    };
    RunView {
        cells,
        header,
        clock_line: clock,
        health_line: health,
        pools_line: pools,
        stamina_line: stamina,
        inventory,
        in_sight,
        hint,
        actions,
        log_tail: tail,
        cursor: look,
        looking,
        inspect: inspect_text,
        legend,
        overlay: shown,
    }
}

} // verus!
