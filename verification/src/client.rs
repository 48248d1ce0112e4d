//! The client layer's shared state types: which screen is up, what modal
//! input is in progress, and the rows the panels list.
use vstd::prelude::*;

use crate::command::{Command, Target};
use crate::geometry::{Direction, Point};
use crate::input::Intent;
use crate::geometry::{spec_in_bounds};
use crate::schema::{ManoeuvreDef};
use crate::sim::{
    actor_name_text, aimable_upto, beside_hunter, manoeuvre_cost_of, sight_readable, sights, sprint_tiles_of, Sim,
};
use crate::state::{living_at, npc_count, npc_here, state_terrain, terrain_readable, Actor, ActorKind};
use crate::view::{
    feature_listed, first_actor_at, first_feature_at, first_npc_at, opportunity_listed, snare_here, terrain_name,
    terrain_name_id,
};
use crate::strings::{args_view, fill_all, StringId, StringTable};
use crate::text::{decimal, push_number, push_text, text_owned};
use crate::world::{first_feature, tile_index, ExitSpec, FeatureKind, FeatureSpec, GraveContents, OpportunityAnchor};

verus! {

/// Which screen the client is on.
#[derive(Debug, Clone, PartialEq, Eq)]
pub enum Screen {
    Splash { selected: usize },
    SeedEntry { input: String, error: Option<String> },
    /// Choosing who takes the case. The world is certified for the hunter,
    /// so this is asked before generation, not after.
    HunterSelect {
        selected: usize,
        /// The seed the player asked for, or `None` to take a fresh one.
        seed: Option<u64>,
    },
    CodeEntry { input: String, error: Option<String> },
    Run,
    Grimoire { selected: usize },
    Relationships { selected: usize },
    RegionMap { selected: usize },
    EventLog { selected: usize },
    /// The case dossier: the synthesis of what is known, as against the
    /// record's chronology of what happened.
    Dossier { selected: usize },
    CaseReport,
}

/// Modal input in progress (multi-key actions, menus).
#[derive(Debug, Clone, PartialEq, Eq)]
pub enum Modal {
    /// Choosing a ranged target among visible hostiles.
    FireTarget { silver: bool, selected: usize },
    /// Sprint: waiting for a single direction (moves several tiles that way).
    SprintDirection,
    /// Snare: waiting for a direction.
    SnareDirection,
    /// A context menu of actions built by the Interact intent.
    Menu { title: String, items: Vec<MenuItem>, selected: usize },
    /// A yes/no gate in front of a command whose cost is not visible at the
    /// moment of choosing it. Row 0 goes ahead; row 1 backs out.
    Confirm { prompt: String, detail: Option<String>, command: Command, selected: usize },
}

#[derive(Debug, Clone, PartialEq, Eq)]
pub struct MenuItem {
    pub label: String,
    /// Present when the action is currently blocked; shown, never hidden.
    pub blocked: Option<String>,
    pub action: MenuAction,
}

#[derive(Debug, Clone, PartialEq, Eq)]
pub enum MenuAction {
    Do(Command),
    Nothing,
}

/// One row of the on-screen action panel: a labelled, keyed, clickable
/// affordance. Disabled entries stay visible with a reason, never hidden.
#[derive(Debug, Clone, PartialEq, Eq)]
pub struct ActionEntry {
    /// Key hint shown to the player (e.g. "e", "f", ";").
    pub key: String,
    pub label: String,
    /// Whether the action can be taken right now.
    pub enabled: bool,
    /// Short note: a cost, or why it is unavailable.
    pub note: Option<String>,
    /// The intent a click on this row fires.
    pub intent: Intent,
}

/// One thing the hunter can currently see, for the in-sight panel and for
/// cursor cycling.
#[derive(Debug, Clone, PartialEq, Eq)]
pub struct SightEntry {
    pub name: String,
    /// Health for a foe, role for a villager.
    pub detail: String,
    pub at: Point,
    pub distance: i16,
    pub hostile: bool,
}

/// The string id naming what a grave held.
pub open spec fn grave_contents_id(contents: GraveContents) -> Seq<char> {
    match contents {
        GraveContents::Empty => "ui.grave.empty"@,
        GraveContents::Mundane => "ui.grave.mundane"@,
        GraveContents::Villain => "ui.grave.villain"@,
    }
}

/// What an opened grave held, for the inspect line.
///
/// A grave's contents are secret until it is opened, so callers must check
/// that it has been opened first.
pub fn grave_contents_name<'a>(strings: &'a StringTable, contents: GraveContents) -> (r: &'a str)
    ensures
        r@ == strings.resolve(grave_contents_id(contents)),
{
    match contents {
        GraveContents::Empty => strings.ui("ui.grave.empty"),
        GraveContents::Mundane => strings.ui("ui.grave.mundane"),
        GraveContents::Villain => strings.ui("ui.grave.villain"),
    }
}

/// What a modal step asks the session to do.
#[derive(Debug, Clone, PartialEq, Eq)]
pub enum ModalEffect {
    Nothing,
    /// Apply the command, gating travel behind a confirmation first.
    Apply(Command),
    /// Apply the command as it stands: the player has already confirmed it.
    ApplyNow(Command),
    /// Show this on the status line.
    Status(String),
}

/// `n - 1`, but not below zero.
pub open spec fn back_one(n: usize) -> usize {
    if n == 0 {
        0
    } else {
        (n - 1) as usize
    }
}

/// One row further on, but no further than `last`.
pub open spec fn on_one(n: usize, last: usize) -> usize {
    if n + 1 <= last {
        (n + 1) as usize
    } else {
        last
    }
}

/// What confirming row `s` of a menu does: a blocked row explains itself,
/// an open one runs its action.
pub open spec fn confirmed(items: Seq<MenuItem>, s: int, effect: ModalEffect) -> bool {
    if 0 <= s < items.len() {
        match items[s].blocked {
            Some(reason) => effect == ModalEffect::Status(reason),
            None => match items[s].action {
                MenuAction::Do(c) => effect == ModalEffect::Apply(c),
                MenuAction::Nothing => effect == ModalEffect::Nothing,
            },
        }
    } else {
        effect == ModalEffect::Nothing
    }
}

/// The first target standing at `p` is at index `k`.
pub open spec fn first_target_at(targets: Seq<(Target, Point)>, p: Point, k: int) -> bool {
    &&& 0 <= k < targets.len()
    &&& targets[k].1 == p
    &&& forall|m: int| 0 <= m < k ==> (#[trigger] targets[m]).1 != p
}

/// One key or click while a modal is up: the modal that follows it and what
/// the session is to do. `targets` are the ranged targets in sight, in the
/// order the targeting list shows them; `sprint_tiles` how far a sprint goes.
#[verifier::loop_isolation(false)]
pub fn handle_modal(
    modal: Modal,
    intent: Intent,
    targets: &Vec<(Target, Point)>,
    sprint_tiles: u8,
    strings: &StringTable,
) -> (r: (Option<Modal>, ModalEffect))
    requires
        intent is Down ==> match modal {
            Modal::FireTarget { selected, .. } => selected < usize::MAX,
            Modal::Menu { selected, .. } => selected < usize::MAX,
            Modal::Confirm { selected, .. } => selected < usize::MAX,
            _ => true,
        },
    ensures
        match modal {
            Modal::SprintDirection => match intent {
                Intent::Move(dir) => {
                    &&& r.0 is None
                    &&& r.1 matches ModalEffect::Apply(Command::Manoeuvre { id, steps }) && id@ == "sprint"@ && steps@
                        == Seq::new(sprint_tiles as nat, |i: int| dir)
                },
                Intent::Cancel => r.0 is None && r.1 == ModalEffect::Nothing,
                _ => r.0 == Some(modal) && r.1 == ModalEffect::Nothing,
            },
            Modal::SnareDirection => match intent {
                Intent::Move(dir) => {
                    &&& r.0 is None
                    &&& r.1 matches ModalEffect::Apply(Command::Signature { id, dir: d, target: t }) && id@
                        == "set-snare"@ && d == Some(dir) && t is None
                },
                Intent::Cancel => r.0 is None && r.1 == ModalEffect::Nothing,
                _ => r.0 == Some(modal) && r.1 == ModalEffect::Nothing,
            },
            Modal::FireTarget { silver, selected } => match intent {
                Intent::Up => r.0 == Some(Modal::FireTarget { silver, selected: back_one(selected) }) && r.1
                    == ModalEffect::Nothing,
                Intent::Down => r.0 == Some(
                    Modal::FireTarget { silver, selected: on_one(selected, back_one(targets@.len() as usize)) },
                ) && r.1 == ModalEffect::Nothing,
                Intent::Confirm | Intent::Fire | Intent::FireSilver => r.0 is None && if selected < targets@.len() {
                    r.1 == ModalEffect::Apply(Command::Ranged { target: targets@[selected as int].0, silver })
                } else {
                    r.1 == ModalEffect::Nothing
                },
                Intent::Click(p) => r.0 is None && if exists|k: int| first_target_at(targets@, p, k) {
                    r.1 == ModalEffect::Apply(
                        Command::Ranged {
                            target: targets@[choose|k: int| first_target_at(targets@, p, k)].0,
                            silver,
                        },
                    )
                } else {
                    r.1 matches ModalEffect::Status(s) && s@ == strings.resolve("ui.status.no-target-there"@)
                },
                Intent::Cancel => r.0 is None && r.1 == ModalEffect::Nothing,
                _ => r.0 == Some(modal) && r.1 == ModalEffect::Nothing,
            },
            Modal::Menu { title, items, selected } => match intent {
                Intent::Up => r.0 == Some(Modal::Menu { title, items, selected: back_one(selected) }) && r.1
                    == ModalEffect::Nothing,
                Intent::Down => r.0 == Some(
                    Modal::Menu { title, items, selected: on_one(selected, back_one(items@.len() as usize)) },
                ) && r.1 == ModalEffect::Nothing,
                Intent::HoverRow(index) => if index < items@.len() {
                    r.0 == Some(Modal::Menu { title, items, selected: index }) && r.1 == ModalEffect::Nothing
                } else {
                    r.0 == Some(modal) && r.1 == ModalEffect::Nothing
                },
                Intent::Select(index) => if index < items@.len() {
                    r.0 is None && confirmed(items@, index as int, r.1)
                } else {
                    r.0 == Some(modal) && r.1 == ModalEffect::Nothing
                },
                Intent::Confirm | Intent::Interact => r.0 is None && confirmed(items@, selected as int, r.1),
                Intent::Cancel => r.0 is None && r.1 == ModalEffect::Nothing,
                _ => r.0 == Some(modal) && r.1 == ModalEffect::Nothing,
            },
            Modal::Confirm { prompt, detail, command, selected } => match intent {
                Intent::Up => r.0 == Some(Modal::Confirm { prompt, detail, command, selected: back_one(selected) })
                    && r.1 == ModalEffect::Nothing,
                Intent::Down => r.0 == Some(Modal::Confirm { prompt, detail, command, selected: on_one(selected, 1) })
                    && r.1 == ModalEffect::Nothing,
                Intent::HoverRow(index) => if index <= 1 {
                    r.0 == Some(Modal::Confirm { prompt, detail, command, selected: index }) && r.1
                        == ModalEffect::Nothing
                } else {
                    r.0 == Some(modal) && r.1 == ModalEffect::Nothing
                },
                Intent::Select(index) => if index <= 1 {
                    r.0 is None && r.1 == if index == 0 {
                        ModalEffect::ApplyNow(command)
                    } else {
                        ModalEffect::Nothing
                    }
                } else {
                    r.0 == Some(modal) && r.1 == ModalEffect::Nothing
                },
                Intent::Confirm => r.0 is None && r.1 == if selected == 0 {
                    ModalEffect::ApplyNow(command)
                } else {
                    ModalEffect::Nothing
                },
                Intent::Cancel => r.0 is None && r.1 == ModalEffect::Nothing,
                _ => r.0 == Some(modal) && r.1 == ModalEffect::Nothing,
            },
        },
{
    match modal {
        Modal::SprintDirection => match intent {
            Intent::Move(dir) => {
                let mut steps: Vec<Direction> = Vec::new();
                let mut k: u8 = 0;
                while k < sprint_tiles
                    invariant
                        k <= sprint_tiles,
                        steps@ == Seq::new(k as nat, |i: int| dir),
                    decreases sprint_tiles - k,
                {
                    steps.push(dir);
                    k = k + 1;
                    proof {
                        assert(steps@ =~= Seq::new(k as nat, |i: int| dir));
                    }
                }
                (None, ModalEffect::Apply(Command::Manoeuvre { id: text_owned("sprint"), steps }))
            },
            Intent::Cancel => (None, ModalEffect::Nothing),
            _ => (Some(Modal::SprintDirection), ModalEffect::Nothing),
        },
        Modal::SnareDirection => match intent {
            Intent::Move(dir) => (
                None,
                ModalEffect::Apply(Command::Signature { id: text_owned("set-snare"), dir: Some(dir), target: None }),
            ),
            Intent::Cancel => (None, ModalEffect::Nothing),
            _ => (Some(Modal::SnareDirection), ModalEffect::Nothing),
        },
        Modal::FireTarget { silver, selected } => match intent {
            Intent::Up => {
                let s = if selected == 0 {
                    0
                } else {
                    selected - 1
                };
                (Some(Modal::FireTarget { silver, selected: s }), ModalEffect::Nothing)
            },
            Intent::Down => {
                let last = if targets.len() == 0 {
                    0
                } else {
                    targets.len() - 1
                };
                let s = if selected + 1 <= last {
                    selected + 1
                } else {
                    last
                };
                (Some(Modal::FireTarget { silver, selected: s }), ModalEffect::Nothing)
            },
            Intent::Confirm | Intent::Fire | Intent::FireSilver => {
                if selected < targets.len() {
                    (None, ModalEffect::Apply(Command::Ranged { target: targets[selected].0, silver }))
                } else {
                    (None, ModalEffect::Nothing)
                }
            },
            Intent::Click(p) => {
                let mut k: usize = 0;
                while k < targets.len()
                    invariant
                        k <= targets@.len(),
                        forall|m: int| 0 <= m < k ==> (#[trigger] targets@[m]).1 != p,
                    decreases targets@.len() - k,
                {
                    if targets[k].1 == p {
                        proof {
                            assert(first_target_at(targets@, p, k as int));
                            assert forall|j: int| first_target_at(targets@, p, j) implies j == k by {
                                if j < k {
                                    assert(targets@[j].1 != p);
                                } else if j > k {
                                    assert(targets@[k as int].1 != p);
                                }
                            }
                        }
                        return (None, ModalEffect::Apply(Command::Ranged { target: targets[k].0, silver }));
                    }
                    k = k + 1;
                }
                (None, ModalEffect::Status(text_owned(strings.ui("ui.status.no-target-there"))))
            },
            Intent::Cancel => (None, ModalEffect::Nothing),
            _ => (Some(Modal::FireTarget { silver, selected }), ModalEffect::Nothing),
        },
        Modal::Menu { title, items, selected } => {
            let n = items.len();
            match intent {
                Intent::Up => {
                    let s = if selected == 0 {
                        0
                    } else {
                        selected - 1
                    };
                    (Some(Modal::Menu { title, items, selected: s }), ModalEffect::Nothing)
                },
                Intent::Down => {
                    let last = if n == 0 {
                        0
                    } else {
                        n - 1
                    };
                    let s = if selected + 1 <= last {
                        selected + 1
                    } else {
                        last
                    };
                    (Some(Modal::Menu { title, items, selected: s }), ModalEffect::Nothing)
                },
                Intent::HoverRow(index) => {
                    if index < n {
                        (Some(Modal::Menu { title, items, selected: index }), ModalEffect::Nothing)
                    } else {
                        (Some(Modal::Menu { title, items, selected }), ModalEffect::Nothing)
                    }
                },
                Intent::Select(index) => {
                    if index < n {
                        (None, confirm_row(items, index))
                    } else {
                        (Some(Modal::Menu { title, items, selected }), ModalEffect::Nothing)
                    }
                },
                Intent::Confirm | Intent::Interact => (None, confirm_row(items, selected)),
                Intent::Cancel => (None, ModalEffect::Nothing),
                _ => (Some(Modal::Menu { title, items, selected }), ModalEffect::Nothing),
            }
        },
        Modal::Confirm { prompt, detail, command, selected } => match intent {
            Intent::Up => {
                let s = if selected == 0 {
                    0
                } else {
                    selected - 1
                };
                (Some(Modal::Confirm { prompt, detail, command, selected: s }), ModalEffect::Nothing)
            },
            Intent::Down => {
                let s = if selected + 1 <= 1 {
                    selected + 1
                } else {
                    1
                };
                (Some(Modal::Confirm { prompt, detail, command, selected: s }), ModalEffect::Nothing)
            },
            Intent::HoverRow(index) => {
                if index <= 1 {
                    (Some(Modal::Confirm { prompt, detail, command, selected: index }), ModalEffect::Nothing)
                } else {
                    (Some(Modal::Confirm { prompt, detail, command, selected }), ModalEffect::Nothing)
                }
            },
            Intent::Select(index) => {
                if index <= 1 {
                    if index == 0 {
                        (None, ModalEffect::ApplyNow(command))
                    } else {
                        (None, ModalEffect::Nothing)
                    }
                } else {
                    (Some(Modal::Confirm { prompt, detail, command, selected }), ModalEffect::Nothing)
                }
            },
            Intent::Confirm => {
                if selected == 0 {
                    (None, ModalEffect::ApplyNow(command))
                } else {
                    (None, ModalEffect::Nothing)
                }
            },
            Intent::Cancel => (None, ModalEffect::Nothing),
            _ => (Some(Modal::Confirm { prompt, detail, command, selected }), ModalEffect::Nothing),
        },
    }
}

/// Confirming row `s` of a menu.
fn confirm_row(items: Vec<MenuItem>, s: usize) -> (r: ModalEffect)
    ensures
        confirmed(items@, s as int, r),
{
    let mut items = items;
    if s < items.len() {
        let item = items.remove(s);
        match item.blocked {
            Some(reason) => ModalEffect::Status(reason),
            None => match item.action {
                MenuAction::Do(c) => ModalEffect::Apply(c),
                MenuAction::Nothing => ModalEffect::Nothing,
            },
        }
    } else {
        ModalEffect::Nothing
    }
}

/// The place the exit under the hunter leads to, if one is there; empty
/// otherwise.
pub open spec fn destination_name(sim: &Sim) -> Seq<char> {
    let exits = sim.world.maps@[sim.state.current_map.0 as int].exits@;
    if exists|k: int| first_exit_at(exits, sim.state.hunter.pos, k) {
        sim.world.maps@[exits[choose|k: int| first_exit_at(exits, sim.state.hunter.pos, k)].to_map.0 as int].name@
    } else {
        seq![]
    }
}

/// The first exit of `exits` at `p` is at index `k`.
pub open spec fn first_exit_at(exits: Seq<ExitSpec>, p: Point, k: int) -> bool {
    &&& 0 <= k < exits.len()
    &&& exits[k].at == p
    &&& forall|m: int| 0 <= m < k ==> (#[trigger] exits[m]).at != p
}

pub(crate) fn first_exit_index(exits: &Vec<ExitSpec>, p: Point) -> (r: Option<usize>)
    ensures
        r is None <==> !exists|k: int| first_exit_at(exits@, p, k),
        r matches Some(k) ==> first_exit_at(exits@, p, k as int),
{
    let mut k: usize = 0;
    while k < exits.len()
        invariant
            k <= exits@.len(),
            forall|m: int| 0 <= m < k ==> (#[trigger] exits@[m]).at != p,
        decreases exits@.len() - k,
    {
        if exits[k].at == p {
            proof {
                assert(first_exit_at(exits@, p, k as int));
            }
            return Some(k);
        }
        k = k + 1;
    }
    proof {
        assert forall|j: int| !first_exit_at(exits@, p, j) by {
            if 0 <= j < exits@.len() {
                assert(exits@[j].at != p);
            }
        }
    }
    None
}

/// `o` holds a text reading `t`.
pub open spec fn holds_text(o: Option<String>, t: Seq<char>) -> bool {
    match o {
        Some(d) => d@ == t,
        None => false,
    }
}

/// The day a journey now would spend.
pub open spec fn next_day(sim: &Sim) -> int {
    if sim.state.clock < u8::MAX {
        sim.state.clock + 1
    } else {
        u8::MAX as int
    }
}

/// The confirmation put in front of a journey: where it leads and which day
/// it spends, and a warning when that day is the last or one the villain's
/// scheme has claimed. Row 0 goes ahead.
pub fn travel_confirm(sim: &Sim, command: Command) -> (r: Modal)
    requires
        (sim.state.current_map.0 as int) < sim.world.maps@.len(),
        forall|k: int|
            0 <= k < sim.world.maps@[sim.state.current_map.0 as int].exits@.len() ==> ((#[trigger] sim.world.maps@[sim.state.current_map.0 as int].exits@[k]).to_map.0 as int)
                < sim.world.maps@.len(),
    ensures
        r matches Modal::Confirm { prompt, detail, command: c, selected } && {
            let clock = sim.catalogue.balance.clock;
            let day = next_day(sim);
            let strings = sim.catalogue.strings;
            &&& prompt@ == fill_all(
                strings.resolve("ui.confirm.travel"@),
                seq![
                    ("place"@, destination_name(sim)),
                    ("day"@, decimal((if day <= clock.travel_turns { day } else { clock.travel_turns as int }) as nat)),
                    ("total"@, decimal(clock.travel_turns as nat)),
                ],
            )
            &&& day >= clock.travel_turns ==> holds_text(detail, strings.resolve("ui.confirm.travel-final"@))
            &&& day < clock.travel_turns && (day == clock.minor_event_turn || day == clock.major_event_turn)
                ==> holds_text(detail, strings.resolve("ui.confirm.travel-event"@))
            &&& day < clock.travel_turns && day != clock.minor_event_turn && day != clock.major_event_turn
                ==> detail is None
            &&& c == command
            &&& selected == 0
        },
{
    let strings = &sim.catalogue.strings;
    let clock = &sim.catalogue.balance.clock;
    let next = if sim.state.clock < 255 {
        sim.state.clock + 1
    } else {
        255
    };
    let exits = &sim.world.map(sim.state.current_map).exits;
    let destination = match first_exit_index(exits, sim.state.hunter.pos) {
        Some(k) => {
            proof {
                assert forall|j: int| first_exit_at(exits@, sim.state.hunter.pos, j) implies j == k by {
                    if j < k {
                        assert(exits@[j].at != sim.state.hunter.pos);
                    } else if j > k {
                        assert(exits@[k as int].at != sim.state.hunter.pos);
                    }
                }
            }
            text_owned(sim.world.map(exits[k].to_map).name.as_str())
        },
        None => String::new(),
    };
    let shown = if next <= clock.travel_turns {
        next
    } else {
        clock.travel_turns
    };
    let mut day = String::new();
    push_number(&mut day, shown as u128);
    let mut total = String::new();
    push_number(&mut total, clock.travel_turns as u128);
    let key = StringId(text_owned("ui.confirm.travel"));
    let args = [("place", destination.as_str()), ("day", day.as_str()), ("total", total.as_str())];
    let prompt = strings.fill(&key, &args);
    proof {
        assert(args_view(args@) =~= seq![
            ("place"@, destination_name(sim)),
            ("day"@, decimal(shown as nat)),
            ("total"@, decimal(clock.travel_turns as nat)),
        ]);
    }
    let detail = if next >= clock.travel_turns {
        Some(text_owned(strings.ui("ui.confirm.travel-final")))
    } else if next == clock.minor_event_turn || next == clock.major_event_turn {
        Some(text_owned(strings.ui("ui.confirm.travel-event")))
    } else {
        None
    };
    Modal::Confirm { prompt, detail, command, selected: 0 }
}

/// What an action row says, as plain values.
pub open spec fn action_view(e: ActionEntry) -> (Seq<char>, Seq<char>, bool, Option<Seq<char>>, Intent) {
    (e.key@, e.label@, e.enabled, text_view(e.note), e.intent)
}

/// An optional text, as its characters.
pub open spec fn text_view(o: Option<String>) -> Option<Seq<char>> {
    match o {
        Some(t) => Some(t@),
        None => None,
    }
}

/// The string table's text for `id`.
pub open spec fn ui_text(sim: &Sim, id: Seq<char>) -> Seq<char> {
    sim.catalogue.strings.resolve(id)
}

/// A note naming a stamina cost.
pub open spec fn stamina_note(cost: u8) -> Seq<char> {
    decimal(cost as nat) + " stamina"@
}

/// The rows that are always there, then the walking row and the in-sight
/// row. `look` is the tile being inspected and `resume` an interrupted
/// walk's destination.
pub open spec fn head_rows(sim: &Sim, look: Option<Point>, resume: Option<Point>) -> Seq<
    (Seq<char>, Seq<char>, bool, Option<Seq<char>>, Intent),
> {
    let pos = sim.state.hunter.pos;
    let pointed = match look {
        Some(at) => if at != pos {
            Some(at)
        } else {
            None
        },
        None => None,
    };
    let resumed = match resume {
        Some(at) => if at != pos {
            Some(at)
        } else {
            None
        },
        None => None,
    };
    let walk = match pointed {
        Some(at) => ("\u{21b5}"@, ui_text(sim, "ui.action.walk-to"@), true, None, Intent::TravelTo(at)),
        None => match resumed {
            Some(at) => ("\u{21b5}"@, ui_text(sim, "ui.action.resume-walk"@), true, None, Intent::TravelTo(at)),
            None => (
                "\u{21b5}"@,
                ui_text(sim, "ui.action.walk-to"@),
                false,
                Some(ui_text(sim, "ui.blocked.no-walk-target"@)),
                Intent::Wait,
            ),
        },
    };
    let sighted = sights(sim).len() > 0;
    seq![
        ("e"@, ui_text(sim, "ui.action.interact"@), true, None, Intent::Interact),
        (";"@, ui_text(sim, "ui.action.look"@), true, None, Intent::ToggleLook),
        ("."@, ui_text(sim, "ui.action.wait"@), true, None, Intent::Wait),
        walk,
        (
            "Tab"@,
            ui_text(sim, "ui.action.next-in-sight"@),
            sighted,
            if sighted {
                None
            } else {
                Some(ui_text(sim, "ui.blocked.nothing-in-sight"@))
            },
            Intent::NextThreat,
        ),
    ]
}

/// The firing rows: the flintlock always, silver while any is carried.
pub open spec fn fire_rows(sim: &Sim) -> Seq<(Seq<char>, Seq<char>, bool, Option<Seq<char>>, Intent)> {
    let targets = aimable_upto(sim.state, sim.state.actors@.len() as int).len() > 0;
    let shots = sim.state.hunter.spec_item_count("flintlock-shot"@);
    let flintlock = (
        "f"@,
        ui_text(sim, "ui.action.fire-flintlock"@),
        targets && shots > 0,
        if shots == 0 {
            Some(ui_text(sim, "ui.blocked.out-of-shot"@))
        } else if !targets {
            Some(ui_text(sim, "ui.blocked.nothing-in-sight"@))
        } else {
            None
        },
        Intent::Fire,
    );
    if sim.state.hunter.spec_item_count("silver-bullet"@) > 0 {
        seq![
            flintlock,
            (
                "F"@,
                ui_text(sim, "ui.action.fire-silver"@),
                targets,
                if targets {
                    None
                } else {
                    Some(ui_text(sim, "ui.blocked.nothing-in-sight"@))
                },
                Intent::FireSilver,
            ),
        ]
    } else {
        seq![flintlock]
    }
}

/// The manoeuvre and signature rows, with their costs.
pub open spec fn move_rows(sim: &Sim) -> Seq<(Seq<char>, Seq<char>, bool, Option<Seq<char>>, Intent)> {
    let ms = sim.catalogue.hunter.manoeuvres@;
    let stamina = sim.state.hunter.stamina;
    let physical = sim.state.hunter.physical;
    let aim = manoeuvre_cost_of(ms, "aim"@);
    let power = manoeuvre_cost_of(ms, "power-attack"@);
    let sprint = manoeuvre_cost_of(ms, "sprint"@);
    let foe = exists|k: int|
        0 <= k < sim.state.actors@.len() && beside_hunter(sim.state, #[trigger] sim.state.actors@[k]);
    seq![
        (
            "a"@,
            ui_text(sim, "ui.action.aim"@),
            stamina >= aim,
            if stamina < aim {
                Some(stamina_note(aim))
            } else {
                None
            },
            Intent::Aim,
        ),
        (
            "p"@,
            ui_text(sim, "ui.action.power-attack"@),
            stamina >= power,
            if stamina < power {
                Some(fill_all(ui_text(sim, "ui.blocked.stamina"@), seq![("cost"@, decimal(power as nat))]))
            } else {
                None
            },
            Intent::PowerAttack,
        ),
        (
            "s"@,
            fill_all(
                ui_text(sim, "ui.action.sprint"@),
                seq![("tiles"@, decimal(sprint_tiles_of(ms) as nat))],
            ),
            stamina >= sprint,
            if stamina < sprint {
                Some(stamina_note(sprint))
            } else {
                None
            },
            Intent::Sprint,
        ),
        (
            "x"@,
            ui_text(sim, "ui.action.set-snare"@),
            physical >= 1,
            if physical < 1 {
                Some(ui_text(sim, "ui.blocked.one-physical"@))
            } else {
                None
            },
            Intent::SetSnare,
        ),
        (
            "K"@,
            ui_text(sim, "ui.action.killing-blow"@),
            physical >= 1 && foe,
            if physical < 1 {
                Some("1 Physical"@)
            } else if !foe {
                Some(ui_text(sim, "ui.blocked.no-foe-adjacent"@))
            } else {
                None
            },
            Intent::KillingBlow,
        ),
    ]
}

/// The rows for what is carried: a draught, a binding charm.
pub open spec fn item_rows(sim: &Sim) -> Seq<(Seq<char>, Seq<char>, bool, Option<Seq<char>>, Intent)> {
    let villain = exists|k: int|
        0 <= k < sim.state.actors@.len() && beside_hunter(sim.state, #[trigger] sim.state.actors@[k])
            && sim.state.actors@[k].kind is Villain;
    let draught: Seq<(Seq<char>, Seq<char>, bool, Option<Seq<char>>, Intent)> = if sim.state.hunter.spec_item_count(
        "wound-draught"@,
    ) > 0 {
        seq![("q"@, ui_text(sim, "ui.action.draught"@), true, None, Intent::Draught)]
    } else {
        seq![]
    };
    let charm: Seq<(Seq<char>, Seq<char>, bool, Option<Seq<char>>, Intent)> = if sim.state.hunter.spec_item_count(
        "binding-charm"@,
    ) > 0 {
        seq![
            (
                "c"@,
                ui_text(sim, "ui.action.binding-charm"@),
                villain,
                if villain {
                    None
                } else {
                    Some(ui_text(sim, "ui.blocked.no-revenant-adjacent"@))
                },
                Intent::Charm,
            ),
        ]
    } else {
        seq![]
    };
    draught + charm
}

/// The rows that open the reference screens.
pub open spec fn screen_rows(sim: &Sim) -> Seq<(Seq<char>, Seq<char>, bool, Option<Seq<char>>, Intent)> {
    seq![
        ("d"@, ui_text(sim, "ui.action.dossier"@), true, None, Intent::Dossier),
        ("g"@, ui_text(sim, "ui.action.grimoire"@), true, None, Intent::Grimoire),
        ("r"@, ui_text(sim, "ui.action.faces"@), true, None, Intent::Relationships),
        ("v"@, ui_text(sim, "ui.action.valley"@), true, None, Intent::RegionMap),
        ("L"@, ui_text(sim, "ui.action.record"@), true, None, Intent::EventLog),
    ]
}

fn action_row(key: &str, label: String, enabled: bool, note: Option<String>, intent: Intent) -> (r: ActionEntry)
    ensures
        action_view(r) == (key@, label@, enabled, text_view(note), intent),
{
    ActionEntry { key: text_owned(key), label, enabled, note, intent }
}

fn ui_owned(sim: &Sim, id: &str) -> (r: String)
    ensures
        r@ == ui_text(sim, id@),
{
    text_owned(sim.catalogue.strings.ui(id))
}

fn stamina_text(cost: u8) -> (r: String)
    ensures
        r@ == stamina_note(cost),
{
    let mut t = String::new();
    push_number(&mut t, cost as u128);
    push_text(&mut t, " stamina");
    t
}

fn push_head_rows(sim: &Sim, look: Option<Point>, resume: Option<Point>, actions: &mut Vec<ActionEntry>)
    requires
        sight_readable(sim),
    ensures
        final(actions)@.map_values(|e: ActionEntry| action_view(e)) == old(actions)@.map_values(
            |e: ActionEntry| action_view(e),
        ) + head_rows(sim, look, resume),
{
    let ghost mark = actions@.map_values(|e: ActionEntry| action_view(e));
    let hunter = &sim.state.hunter;
    let pos = hunter.pos;
    actions.push(action_row("e", ui_owned(sim, "ui.action.interact"), true, None, Intent::Interact));
    actions.push(action_row(";", ui_owned(sim, "ui.action.look"), true, None, Intent::ToggleLook));
    actions.push(action_row(".", ui_owned(sim, "ui.action.wait"), true, None, Intent::Wait));
    let pointed = match look {
        Some(at) => if !(at == pos) {
            Some(at)
        } else {
            None
        },
        None => None,
    };
    let resumed = match resume {
        Some(at) => if !(at == pos) {
            Some(at)
        } else {
            None
        },
        None => None,
    };
    match pointed {
        Some(at) => actions.push(
            action_row("\u{21b5}", ui_owned(sim, "ui.action.walk-to"), true, None, Intent::TravelTo(at)),
        ),
        None => match resumed {
            Some(at) => actions.push(
                action_row("\u{21b5}", ui_owned(sim, "ui.action.resume-walk"), true, None, Intent::TravelTo(at)),
            ),
            None => actions.push(
                action_row(
                    "\u{21b5}",
                    ui_owned(sim, "ui.action.walk-to"),
                    false,
                    Some(ui_owned(sim, "ui.blocked.no-walk-target")),
                    Intent::Wait,
                ),
            ),
        },
    }
    let sighted = sim.in_sight().len() != 0;
    actions.push(
        action_row(
            "Tab",
            ui_owned(sim, "ui.action.next-in-sight"),
            sighted,
            if sighted {
                None
            } else {
                Some(ui_owned(sim, "ui.blocked.nothing-in-sight"))
            },
            Intent::NextThreat,
        ),
    );
    proof {
        assert(actions@.map_values(|e: ActionEntry| action_view(e)) =~= mark + head_rows(sim, look, resume));
    }
}

fn push_fire_rows(sim: &Sim, actions: &mut Vec<ActionEntry>)
    requires
        sight_readable(sim),
    ensures
        final(actions)@.map_values(|e: ActionEntry| action_view(e)) == old(actions)@.map_values(
            |e: ActionEntry| action_view(e),
        ) + fire_rows(sim),
{
    let ghost mark = actions@.map_values(|e: ActionEntry| action_view(e));
    let hunter = &sim.state.hunter;
    let targets = sim.fire_targets().len() != 0;
    let shots = hunter.item_count("flintlock-shot");
    actions.push(
        action_row(
            "f",
            ui_owned(sim, "ui.action.fire-flintlock"),
            targets && shots > 0,
            if shots == 0 {
                Some(ui_owned(sim, "ui.blocked.out-of-shot"))
            } else if !targets {
                Some(ui_owned(sim, "ui.blocked.nothing-in-sight"))
            } else {
                None
            },
            Intent::Fire,
        ),
    );
    if hunter.item_count("silver-bullet") > 0 {
        actions.push(
            action_row(
                "F",
                ui_owned(sim, "ui.action.fire-silver"),
                targets,
                if targets {
                    None
                } else {
                    Some(ui_owned(sim, "ui.blocked.nothing-in-sight"))
                },
                Intent::FireSilver,
            ),
        );
    }
    proof {
        assert(actions@.map_values(|e: ActionEntry| action_view(e)) =~= mark + fire_rows(sim));
    }
}

fn push_move_rows(sim: &Sim, actions: &mut Vec<ActionEntry>)
    requires
        sight_readable(sim),
    ensures
        final(actions)@.map_values(|e: ActionEntry| action_view(e)) == old(actions)@.map_values(
            |e: ActionEntry| action_view(e),
        ) + move_rows(sim),
{
    let ghost mark = actions@.map_values(|e: ActionEntry| action_view(e));
    let hunter = &sim.state.hunter;
    let stamina = hunter.stamina;
    let aim_cost = sim.manoeuvre_cost("aim");
    actions.push(
        action_row(
            "a",
            ui_owned(sim, "ui.action.aim"),
            stamina >= aim_cost,
            if stamina < aim_cost {
                Some(stamina_text(aim_cost))
            } else {
                None
            },
            Intent::Aim,
        ),
    );
    let power_cost = sim.manoeuvre_cost("power-attack");
    let power_note = if stamina < power_cost {
        let mut cost = String::new();
        push_number(&mut cost, power_cost as u128);
        let args = [("cost", cost.as_str())];
        let note = sim.catalogue.strings.fill(&StringId(text_owned("ui.blocked.stamina")), &args);
        proof {
            assert(args_view(args@) =~= seq![("cost"@, decimal(power_cost as nat))]);
        }
        Some(note)
    } else {
        None
    };
    actions.push(action_row("p", ui_owned(sim, "ui.action.power-attack"), stamina >= power_cost, power_note, Intent::PowerAttack));
    let sprint_cost = sim.manoeuvre_cost("sprint");
    let mut tiles = String::new();
    push_number(&mut tiles, sim.sprint_tiles() as u128);
    let tile_args = [("tiles", tiles.as_str())];
    let sprint_label = sim.catalogue.strings.fill(&StringId(text_owned("ui.action.sprint")), &tile_args);
    proof {
        assert(args_view(tile_args@) =~= seq![("tiles"@, decimal(sprint_tiles_of(sim.catalogue.hunter.manoeuvres@) as nat))]);
    }
    actions.push(
        action_row(
            "s",
            sprint_label,
            stamina >= sprint_cost,
            if stamina < sprint_cost {
                Some(stamina_text(sprint_cost))
            } else {
                None
            },
            Intent::Sprint,
        ),
    );
    let physical = hunter.physical;
    actions.push(
        action_row(
            "x",
            ui_owned(sim, "ui.action.set-snare"),
            physical >= 1,
            if physical < 1 {
                Some(ui_owned(sim, "ui.blocked.one-physical"))
            } else {
                None
            },
            Intent::SetSnare,
        ),
    );
    let foe = sim.adjacent_hostile().is_some();
    actions.push(
        action_row(
            "K",
            ui_owned(sim, "ui.action.killing-blow"),
            physical >= 1 && foe,
            if physical < 1 {
                Some(text_owned("1 Physical"))
            } else if !foe {
                Some(ui_owned(sim, "ui.blocked.no-foe-adjacent"))
            } else {
                None
            },
            Intent::KillingBlow,
        ),
    );
    proof {
        assert(actions@.map_values(|e: ActionEntry| action_view(e)) =~= mark + move_rows(sim));
    }
}

fn push_item_rows(sim: &Sim, actions: &mut Vec<ActionEntry>)
    requires
        sight_readable(sim),
    ensures
        final(actions)@.map_values(|e: ActionEntry| action_view(e)) == old(actions)@.map_values(
            |e: ActionEntry| action_view(e),
        ) + item_rows(sim),
{
    let ghost mark = actions@.map_values(|e: ActionEntry| action_view(e));
    let hunter = &sim.state.hunter;
    if hunter.item_count("wound-draught") > 0 {
        actions.push(action_row("q", ui_owned(sim, "ui.action.draught"), true, None, Intent::Draught));
    }
    if hunter.item_count("binding-charm") > 0 {
        let villain = sim.adjacent_villain();
        actions.push(
            action_row(
                "c",
                ui_owned(sim, "ui.action.binding-charm"),
                villain,
                if villain {
                    None
                } else {
                    Some(ui_owned(sim, "ui.blocked.no-revenant-adjacent"))
                },
                Intent::Charm,
            ),
        );
    }
    proof {
        assert(actions@.map_values(|e: ActionEntry| action_view(e)) =~= mark + item_rows(sim));
    }
}

fn push_screen_rows(sim: &Sim, actions: &mut Vec<ActionEntry>)
    ensures
        final(actions)@.map_values(|e: ActionEntry| action_view(e)) == old(actions)@.map_values(
            |e: ActionEntry| action_view(e),
        ) + screen_rows(sim),
{
    let ghost mark = actions@.map_values(|e: ActionEntry| action_view(e));
    actions.push(action_row("d", ui_owned(sim, "ui.action.dossier"), true, None, Intent::Dossier));
    actions.push(action_row("g", ui_owned(sim, "ui.action.grimoire"), true, None, Intent::Grimoire));
    actions.push(action_row("r", ui_owned(sim, "ui.action.faces"), true, None, Intent::Relationships));
    actions.push(action_row("v", ui_owned(sim, "ui.action.valley"), true, None, Intent::RegionMap));
    actions.push(action_row("L", ui_owned(sim, "ui.action.record"), true, None, Intent::EventLog));
    proof {
        assert(actions@.map_values(|e: ActionEntry| action_view(e)) =~= mark + screen_rows(sim));
    }
}

/// The context-sensitive list of actions on the right of the screen. Every
/// row is keyed and clickable; one that cannot be taken stays, with the
/// reason. `look` is the tile being inspected, `resume` where an
/// interrupted walk was heading.
pub fn available_actions(sim: &Sim, look: Option<Point>, resume: Option<Point>) -> (r: Vec<ActionEntry>)
    requires
        sight_readable(sim),
    ensures
        r@.map_values(|e: ActionEntry| action_view(e)) == head_rows(sim, look, resume) + fire_rows(sim) + move_rows(
            sim,
        ) + item_rows(sim) + screen_rows(sim),
{
    let mut actions: Vec<ActionEntry> = Vec::new();
    proof {
        assert(actions@.map_values(|e: ActionEntry| action_view(e)) =~= Seq::empty());
    }
    push_head_rows(sim, look, resume, &mut actions);
    push_fire_rows(sim, &mut actions);
    push_move_rows(sim, &mut actions);
    push_item_rows(sim, &mut actions);
    push_screen_rows(sim, &mut actions);
    proof {
        assert(actions@.map_values(|e: ActionEntry| action_view(e)) =~= head_rows(sim, look, resume) + fire_rows(sim)
            + move_rows(sim) + item_rows(sim) + screen_rows(sim));
    }
    actions
}

/// `parts` joined by `sep`.
pub open spec fn joined_with(parts: Seq<Seq<char>>, sep: Seq<char>) -> Seq<char>
    decreases parts.len(),
{
    if parts.len() == 0 {
        seq![]
    } else if parts.len() == 1 {
        parts[0]
    } else {
        joined_with(parts.drop_last(), sep) + sep + parts.last()
    }
}

/// The leads among the first `n` opportunities waiting at `anchor` on the
/// current map (discovered, neither followed nor lost), each as a line.
pub open spec fn lead_lines(sim: &Sim, anchor: OpportunityAnchor, n: int) -> Seq<Seq<char>>
    decreases n,
{
    if n <= 0 {
        seq![]
    } else {
        let o = sim.world.opportunities@[n - 1];
        let rest = lead_lines(sim, anchor, n - 1);
        if o.map == sim.state.current_map && sim.state.discovered@.contains(o.id) && !sim.state.resolved@.contains(o.id)
            && !sim.state.lost@.contains(o.id) && o.anchor == anchor {
            rest.push("Lead: "@ + o.name@)
        } else {
            rest
        }
    }
}

/// The line for an actor under the cursor: name and health, and for the
/// villain whether it is held and whether it can be wounded.
pub open spec fn actor_line(sim: &Sim, a: Actor) -> Seq<char> {
    let base = actor_name_text(sim, a.kind) + " ("@ + decimal(a.hp as nat) + "/"@ + decimal(a.max_hp as nat)
        + " health)"@;
    if a.kind is Villain {
        base + (if a.trapped > 0 {
            ", held fast"@
        } else {
            seq![]
        }) + (if sim.spec_vulnerable(a.id) {
            ", VULNERABLE"@
        } else {
            seq![]
        })
    } else {
        base
    }
}

/// The line for the first living actor under the cursor, if any.
pub open spec fn actor_lines(sim: &Sim, p: Point) -> Seq<Seq<char>> {
    let map = sim.state.current_map;
    if exists|k: int| first_actor_at(sim.state.actors@, map, p, k) {
        seq![actor_line(sim, sim.state.actors@[choose|k: int| first_actor_at(sim.state.actors@, map, p, k)])]
    } else {
        seq![]
    }
}

/// The lines for the first NPC under the cursor, if any: name and role,
/// then the leads that involve talking to them.
pub open spec fn npc_lines(sim: &Sim, p: Point) -> Seq<Seq<char>> {
    let map = sim.state.current_map;
    if exists|k: int| first_npc_at(sim.world.npcs@, sim.state.npcs@, map, p, k) {
        let k = choose|k: int| first_npc_at(sim.world.npcs@, sim.state.npcs@, map, p, k);
        let id = sim.world.npcs@[k].id;
        let spec = sim.world.npcs@[id.0 as int];
        let role = match sim.catalogue.npcs.archetypes.lookup(spec.archetype@) {
            Some(def) => sim.catalogue.strings.resolve(def.name.0@),
            None => seq![],
        };
        seq![fill_all(ui_text(sim, "ui.npc.name-and-role"@), seq![("name"@, spec.name@), ("role"@, role)])]
            + lead_lines(sim, OpportunityAnchor::Npc(id), sim.world.opportunities@.len() as int)
    } else {
        seq![]
    }
}

/// The lines for what is in sight under the cursor: an actor, then an NPC.
pub open spec fn sighted_lines(sim: &Sim, p: Point) -> Seq<Seq<char>> {
    actor_lines(sim, p) + npc_lines(sim, p)
}

/// The line for a feature under the cursor: its name, and for an opened
/// grave what it held.
pub open spec fn feature_line(sim: &Sim, f: FeatureSpec) -> Seq<char> {
    match f.kind {
        FeatureKind::Grave { contents } => if sim.state.opened_graves@.contains(f.id) {
            fill_all(
                ui_text(sim, "ui.feature.opened-grave"@),
                seq![("name"@, f.name@), ("contents"@, ui_text(sim, grave_contents_id(contents)))],
            )
        } else {
            f.name@
        },
        _ => f.name@,
    }
}

/// What is said of the place itself: its feature, its leads, its road, its
/// snare and its ground.
pub open spec fn place_lines(sim: &Sim, p: Point) -> Seq<Seq<char>> {
    let map = sim.state.current_map;
    let m = sim.world.maps@[map.0 as int];
    let feature: Seq<Seq<char>> = if exists|k: int| first_feature_at(m.features@, p, k) {
        seq![feature_line(sim, m.features@[choose|k: int| first_feature_at(m.features@, p, k)])]
    } else {
        seq![]
    };
    let exit: Seq<Seq<char>> = if exists|k: int| first_exit_at(m.exits@, p, k) {
        seq!["Road to "@ + sim.world.maps@[m.exits@[choose|k: int| first_exit_at(m.exits@, p, k)].to_map.0 as int].name@]
    } else {
        seq![]
    };
    let snare: Seq<Seq<char>> = if exists|k: int|
        0 <= k < sim.state.snares@.len() && (#[trigger] sim.state.snares@[k]).map == map && sim.state.snares@[k].at
            == p {
        seq![ui_text(sim, "ui.inspect.snare"@)]
    } else {
        seq![]
    };
    let terrain = seq![ui_text(sim, terrain_name_id(state_terrain(sim.state.terrain_overrides@, sim.world, map, p)))];
    feature + lead_lines(sim, OpportunityAnchor::Tile(p), sim.world.opportunities@.len() as int) + exit + snare
        + terrain
}

/// Everything said about a seen tile, in order.
pub open spec fn inspect_lines(sim: &Sim, p: Point) -> Seq<Seq<char>> {
    let map = sim.state.current_map;
    let hunter: Seq<Seq<char>> = if p == sim.state.hunter.pos {
        seq![fill_all(
            ui_text(sim, "ui.inspect.hunter"@),
            seq![("hunter"@, sim.catalogue.strings.resolve(sim.catalogue.hunter.name.0@))],
        )]
    } else {
        seq![]
    };
    let sighted = if sim.state.visible@[tile_index(p)] {
        sighted_lines(sim, p)
    } else {
        seq![]
    };
    hunter + sighted + place_lines(sim, p)
}

/// What inspecting a tile needs is there to read.
pub open spec fn inspect_readable(sim: &Sim, p: Point) -> bool {
    let map = sim.state.current_map;
    &&& (map.0 as int) < sim.world.maps@.len()
    &&& spec_in_bounds(p) ==> {
        &&& (map.0 as int) < sim.state.seen@.len()
        &&& tile_index(p) < sim.state.seen@[map.0 as int]@.len()
        &&& tile_index(p) < sim.state.visible@.len()
        &&& terrain_readable(sim.state.terrain_overrides@, sim.world, map, p)
    }
    &&& forall|k: int|
        0 <= k < npc_count(sim.world.npcs@, sim.state.npcs@) ==> ((#[trigger] sim.world.npcs@[k]).id.0 as int)
            < sim.world.npcs@.len()
    &&& forall|k: int|
        0 <= k < sim.state.actors@.len() && (#[trigger] sim.state.actors@[k]).kind is Villain ==> sim.has_villain_def()
            && sim.vulnerability_readable(sim.state.actors@[k].id)
    &&& forall|k: int|
        0 <= k < sim.world.maps@[map.0 as int].exits@.len() ==> ((#[trigger] sim.world.maps@[map.0 as int].exits@[k]).to_map.0 as int)
            < sim.world.maps@.len()
}

fn push_part(parts: &mut Vec<String>, part: String)
    ensures
        final(parts)@.map_values(|s: String| s@) == old(parts)@.map_values(|s: String| s@).push(part@),
{
    parts.push(part);
    proof {
        assert(final(parts)@.map_values(|s: String| s@) =~= old(parts)@.map_values(|s: String| s@).push(part@));
    }
}

fn push_leads(sim: &Sim, anchor: OpportunityAnchor, parts: &mut Vec<String>)
    ensures
        final(parts)@.map_values(|s: String| s@) == old(parts)@.map_values(|s: String| s@) + lead_lines(
            sim,
            anchor,
            sim.world.opportunities@.len() as int,
        ),
{
    let ghost start = parts@.map_values(|s: String| s@);
    let map = sim.state.current_map;
    let opps = &sim.world.opportunities;
    let mut k: usize = 0;
    while k < opps.len()
        invariant
            k <= opps@.len(),
            *opps == sim.world.opportunities,
            map == sim.state.current_map,
            parts@.map_values(|s: String| s@) == start + lead_lines(sim, anchor, k as int),
        decreases opps@.len() - k,
    {
        let o = &opps[k];
        let here = match (o.anchor, anchor) {
            (OpportunityAnchor::Tile(a), OpportunityAnchor::Tile(b)) => a == b,
            (OpportunityAnchor::Npc(a), OpportunityAnchor::Npc(b)) => a.0 == b.0,
            _ => false,
        };
        if o.map == map && opportunity_listed(&sim.state.discovered, o.id) && !opportunity_listed(
            &sim.state.resolved,
            o.id,
        ) && !opportunity_listed(&sim.state.lost, o.id) && here {
            let mut line = text_owned("Lead: ");
            push_text(&mut line, o.name.as_str());
            push_part(parts, line);
            proof {
                assert(start + lead_lines(sim, anchor, k + 1) =~= (start + lead_lines(sim, anchor, k as int)).push(
                    "Lead: "@ + o.name@,
                ));
            }
        }
        k = k + 1;
    }
}

pub(crate) fn join_parts(parts: &Vec<String>, sep: &str) -> (r: String)
    ensures
        r@ == joined_with(parts@.map_values(|s: String| s@), sep@),
{
    let ghost ps = parts@.map_values(|s: String| s@);
    let mut out = String::new();
    let mut k: usize = 0;
    while k < parts.len()
        invariant
            k <= parts@.len(),
            ps == parts@.map_values(|s: String| s@),
            out@ == joined_with(ps.take(k as int), sep@),
        decreases parts@.len() - k,
    {
        proof {
            assert(ps.take(k + 1).drop_last() =~= ps.take(k as int));
        }
        if k > 0 {
            push_text(&mut out, sep);
        } else {
            proof {
                assert(out@ =~= Seq::<char>::empty());
            }
        }
        push_text(&mut out, parts[k].as_str());
        k = k + 1;
        proof {
            if k == 1 {
                assert(ps.take(1) =~= seq![ps[0]]);
            }
        }
    }
    proof {
        assert(ps.take(k as int) =~= ps);
    }
    out
}

fn push_actor_lines(sim: &Sim, point: Point, parts: &mut Vec<String>)
    requires
        inspect_readable(sim, point),
    ensures
        final(parts)@.map_values(|s: String| s@) == old(parts)@.map_values(|s: String| s@) + actor_lines(sim, point),
{
    let map = sim.state.current_map;
    let ghost start = parts@.map_values(|s: String| s@);
    match sim.state.actor_at(map, point) {
        Some(actor) => {
            proof {
                let k = choose|k: int|
                    0 <= k < sim.state.actors@.len() && *actor == sim.state.actors@[k] && living_at(*actor, map, point)
                        && forall|m: int| 0 <= m < k ==> !living_at(#[trigger] sim.state.actors@[m], map, point);
                assert(first_actor_at(sim.state.actors@, map, point, k));
                assert forall|j: int| first_actor_at(sim.state.actors@, map, point, j) implies j == k by {
                    if j < k {
                        assert(!living_at(sim.state.actors@[j], map, point));
                    } else if j > k {
                        assert(!living_at(sim.state.actors@[k], map, point));
                    }
                }
            }
            let mut line = sim.actor_name(&actor.kind);
            push_text(&mut line, " (");
            push_number(&mut line, actor.hp as u128);
            push_text(&mut line, "/");
            push_number(&mut line, actor.max_hp as u128);
            push_text(&mut line, " health)");
            match actor.kind {
                ActorKind::Villain => {
                    if actor.trapped > 0 {
                        push_text(&mut line, ", held fast");
                    }
                    if sim.villain_is_vulnerable(actor.id) {
                        push_text(&mut line, ", VULNERABLE");
                    }
                },
                ActorKind::Enemy(_) => {},
            }
            push_part(parts, line);
        },
        None => {},
    }
    proof {
        assert(parts@.map_values(|s: String| s@) =~= start + actor_lines(sim, point));
    }
}

fn push_npc_lines(sim: &Sim, point: Point, parts: &mut Vec<String>)
    requires
        inspect_readable(sim, point),
    ensures
        final(parts)@.map_values(|s: String| s@) == old(parts)@.map_values(|s: String| s@) + npc_lines(sim, point),
{
    let map = sim.state.current_map;
    let strings = &sim.catalogue.strings;
    let ghost start = parts@.map_values(|s: String| s@);
    match sim.state.npc_at(&sim.world, map, point) {
        Some(npc_id) => {
            proof {
                let k = choose|k: int|
                    0 <= k < npc_count(sim.world.npcs@, sim.state.npcs@) && npc_id == sim.world.npcs@[k].id
                        && npc_here(sim.world.npcs@[k], sim.state.npcs@[k], map, point) && forall|m: int|
                        0 <= m < k ==> !npc_here(#[trigger] sim.world.npcs@[m], sim.state.npcs@[m], map, point);
                assert(first_npc_at(sim.world.npcs@, sim.state.npcs@, map, point, k));
                assert forall|j: int| first_npc_at(sim.world.npcs@, sim.state.npcs@, map, point, j) implies j == k by {
                    if j < k {
                        assert(!npc_here(sim.world.npcs@[j], sim.state.npcs@[j], map, point));
                    } else if j > k {
                        assert(!npc_here(sim.world.npcs@[k], sim.state.npcs@[k], map, point));
                    }
                }
            }
            let spec = sim.world.npc(npc_id);
            let role = match sim.catalogue.npcs.archetypes.get(spec.archetype.as_str()) {
                Some(def) => strings.get(&def.name),
                None => {
                    proof {
                        reveal_strlit("");
                        assert(""@ =~= Seq::<char>::empty());
                    }
                    ""
                },
            };
            let args = [("name", spec.name.as_str()), ("role", role)];
            let line = strings.fill(&StringId(text_owned("ui.npc.name-and-role")), &args);
            proof {
                assert(args_view(args@) =~= seq![("name"@, spec.name@), ("role"@, role@)]);
            }
            let ghost line_text = line@;
            push_part(parts, line);
            let ghost with_line = parts@.map_values(|s: String| s@);
            push_leads(sim, OpportunityAnchor::Npc(npc_id), parts);
            proof {
                assert(with_line == start.push(line_text));
                let role_spec = match sim.catalogue.npcs.archetypes.lookup(spec.archetype@) {
                    Some(def) => sim.catalogue.strings.resolve(def.name.0@),
                    None => Seq::<char>::empty(),
                };
                assert(role@ == role_spec);
                assert(*spec == sim.world.npcs@[npc_id.0 as int]);
                assert(line_text == fill_all(
                    ui_text(sim, "ui.npc.name-and-role"@),
                    seq![("name"@, spec.name@), ("role"@, role_spec)],
                ));
                assert(npc_lines(sim, point) == seq![line_text] + lead_lines(
                    sim,
                    OpportunityAnchor::Npc(npc_id),
                    sim.world.opportunities@.len() as int,
                ));
                assert(start + npc_lines(sim, point) =~= start.push(line_text) + lead_lines(
                    sim,
                    OpportunityAnchor::Npc(npc_id),
                    sim.world.opportunities@.len() as int,
                ));
            }
        },
        None => {
            proof {
                if exists|k: int| first_npc_at(sim.world.npcs@, sim.state.npcs@, map, point, k) {
                    let k = choose|k: int| first_npc_at(sim.world.npcs@, sim.state.npcs@, map, point, k);
                    assert(!npc_here(sim.world.npcs@[k], sim.state.npcs@[k], map, point));
                }
            }
        },
    }
    proof {
        assert(parts@.map_values(|s: String| s@) =~= start + npc_lines(sim, point));
    }
}

fn push_place_lines(sim: &Sim, point: Point, parts: &mut Vec<String>)
    requires
        inspect_readable(sim, point),
        spec_in_bounds(point),
    ensures
        final(parts)@.map_values(|s: String| s@) == old(parts)@.map_values(|s: String| s@) + place_lines(sim, point),
{
    let map = sim.state.current_map;
    let strings = &sim.catalogue.strings;
    let ghost start = parts@.map_values(|s: String| s@);
    let wm = sim.world.map(map);
    let ghost fs = wm.features@;
    match wm.feature_at(point) {
        Some(feature) => {
            proof {
                let k = choose|k: int| first_feature(fs, |g: FeatureSpec| g.at == point, k) && *feature == fs[k];
                assert(first_feature_at(fs, point, k));
                assert forall|j: int| first_feature_at(fs, point, j) implies j == k by {
                    if j < k {
                        assert(fs[j].at != point);
                    } else if j > k {
                        assert(fs[k].at != point);
                    }
                }
            }
            let line = match feature.kind {
                FeatureKind::Grave { contents } => {
                    if feature_listed(&sim.state.opened_graves, feature.id) {
                        let args = [("name", feature.name.as_str()), ("contents", grave_contents_name(strings, contents))];
                        let line = strings.fill(&StringId(text_owned("ui.feature.opened-grave")), &args);
                        proof {
                            assert(args_view(args@) =~= seq![
                                ("name"@, feature.name@),
                                ("contents"@, ui_text(sim, grave_contents_id(contents))),
                            ]);
                        }
                        line
                    } else {
                        text_owned(feature.name.as_str())
                    }
                },
                _ => text_owned(feature.name.as_str()),
            };
            push_part(parts, line);
        },
        None => {},
    }
    push_leads(sim, OpportunityAnchor::Tile(point), parts);
    match first_exit_index(&wm.exits, point) {
        Some(k) => {
            proof {
                assert forall|j: int| first_exit_at(wm.exits@, point, j) implies j == k by {
                    if j < k {
                        assert(wm.exits@[j].at != point);
                    } else if j > k {
                        assert(wm.exits@[k as int].at != point);
                    }
                }
            }
            let mut line = text_owned("Road to ");
            push_text(&mut line, sim.world.map(wm.exits[k].to_map).name.as_str());
            push_part(parts, line);
        },
        None => {},
    }
    if snare_here(&sim.state.snares, map, point) {
        push_part(parts, ui_owned(sim, "ui.inspect.snare"));
    }
    let terrain = sim.state.terrain(&sim.world, map, point);
    push_part(parts, text_owned(terrain_name(strings, terrain)));
    proof {
        assert(parts@.map_values(|s: String| s@) =~= start + place_lines(sim, point));
    }
}

/// What the look cursor says about a tile: nothing off the map, "unexplored"
/// where the hunter has not been, and otherwise, joined by dashes, who
/// stands there, what is in sight on it, its feature, its leads, its road,
/// its snare and its ground.
pub fn inspect(sim: &Sim, point: Point) -> (r: Option<String>)
    requires
        inspect_readable(sim, point),
    ensures
        !spec_in_bounds(point) ==> r is None,
        spec_in_bounds(point) && !sim.state.seen@[sim.state.current_map.0 as int]@[tile_index(point)] ==> holds_text(
            r,
            ui_text(sim, "ui.inspect.unexplored"@),
        ),
        spec_in_bounds(point) && sim.state.seen@[sim.state.current_map.0 as int]@[tile_index(point)] ==> holds_text(
            r,
            joined_with(inspect_lines(sim, point), " \u{2014} "@),
        ),
{
    let map = sim.state.current_map;
    if !point.in_bounds() {
        return None;
    }
    let seen = sim.state.is_seen(map, point);
    let visible = sim.state.is_visible(point);
    if !seen {
        return Some(ui_owned(sim, "ui.inspect.unexplored"));
    }
    let strings = &sim.catalogue.strings;
    let mut parts: Vec<String> = Vec::new();
    proof {
        assert(parts@.map_values(|s: String| s@) =~= Seq::<Seq<char>>::empty());
    }
    if point == sim.state.hunter.pos {
        let args = [("hunter", strings.get(&sim.catalogue.hunter.name))];
        let line = strings.fill(&StringId(text_owned("ui.inspect.hunter")), &args);
        proof {
            assert(args_view(args@) =~= seq![("hunter"@, strings.resolve(sim.catalogue.hunter.name.0@))]);
        }
        push_part(&mut parts, line);
    }
    let ghost after_hunter = parts@.map_values(|s: String| s@);
    if visible {
        push_actor_lines(sim, point, &mut parts);
        push_npc_lines(sim, point, &mut parts);
        proof {
            assert(parts@.map_values(|s: String| s@) =~= after_hunter + sighted_lines(sim, point));
        }
    }
    push_place_lines(sim, point, &mut parts);
    proof {
        assert(parts@.map_values(|s: String| s@) =~= inspect_lines(sim, point));
    }
    Some(join_parts(&parts, " \u{2014} "))
}

} // verus!
