//! A blow landing on an actor: the villain's guard, the vulnerability
//! window, the hex-ward, silver against regeneration, waking the dormant,
//! and what a death leaves behind.
use vstd::prelude::*;

use crate::client::ui_text;
use crate::events::{EventKind, LogEvent};
use crate::frame::filled;
use crate::sim::{actor_name_text, first_with_id, logged_now, Sim};
use crate::state::{Actor, ActorId, ActorKind, HunterState, Outcome, RunState};
use crate::frame::item_label;
use crate::geometry::{chebyshev, Point};
use crate::world::{DiscoveryRule, OpportunityAnchor, OpportunitySpec};
use crate::strings::{args_view, StringId};
use crate::text::{decimal, push_number, text_owned};
use crate::view::opportunity_listed;

verus! {

/// `new_log` is `old_log` with `lines` logged after it, each stamped with
/// the turns of `state`.
pub open spec fn logged_lines(
    old_log: Seq<LogEvent>,
    new_log: Seq<LogEvent>,
    state: RunState,
    lines: Seq<(EventKind, Seq<char>)>,
) -> bool {
    &&& new_log.len() == old_log.len() + lines.len()
    &&& forall|i: int| 0 <= i < old_log.len() ==> #[trigger] new_log[i] == old_log[i]
    &&& forall|j: int|
        0 <= j < lines.len() ==> logged_now(state, new_log[old_log.len() + j], lines[j].0, #[trigger] lines[j].1)
}

/// A villain with a cadence turns aside a blow outside its vulnerability
/// window, unless it is still dormant.
pub open spec fn guarded(sim: &Sim, a: Actor) -> bool {
    a.kind is Villain && sim.spec_villain().cadence is Some && !sim.spec_vulnerable(a.id) && a.dormant == 0
}

/// In its vulnerability window a blow lands twice as deep.
pub open spec fn doubled(sim: &Sim, a: Actor) -> bool {
    a.kind is Villain && sim.spec_villain().cadence is Some && sim.spec_vulnerable(a.id) && a.dormant == 0
}

/// A standing hex-ward soaks an honest blow; the counter cuts through it.
pub open spec fn warded(sim: &Sim, a: Actor, weakness: bool) -> bool {
    a.kind is Villain && !weakness && sim.spec_villain().ward is Some && a.ward_charges > 0
}

/// The counter stops regeneration, the first time it bites.
pub open spec fn silvered(sim: &Sim, a: Actor, weakness: bool) -> bool {
    a.kind is Villain && weakness && sim.spec_villain().regeneration is Some && !a.regen_stopped
}

/// The damage that lands.
pub open spec fn blow(sim: &Sim, a: Actor, damage: u16, weakness: bool) -> int {
    if warded(sim, a, weakness) {
        sim.spec_villain().ward->0.leak_damage as int
    } else if doubled(sim, a) {
        damage * 2
    } else {
        damage as int
    }
}

/// The ward charges left after the blow.
pub open spec fn charges_left(sim: &Sim, a: Actor, weakness: bool) -> int {
    if warded(sim, a, weakness) {
        a.ward_charges - 1
    } else {
        a.ward_charges as int
    }
}

/// What the ward leaks through, and how long it takes to reweave.
pub open spec fn ward_terms(sim: &Sim) -> (u16, u8) {
    match sim.spec_villain().ward {
        Some(w) => (w.leak_damage, w.reweave_turns),
        None => (0, 0),
    }
}

/// The actor after a blow of `damage` that `doubling`, `ward_hit` and
/// `silver_hit` describe: hurt, awake, no longer dormant, its ward and
/// regeneration as the blow left them.
pub open spec fn struck_with(
    a: Actor,
    damage: u16,
    doubling: bool,
    ward_hit: bool,
    silver_hit: bool,
    terms: (u16, u8),
) -> Actor {
    let b: int = if ward_hit {
        terms.0 as int
    } else if doubling {
        damage * 2
    } else {
        damage as int
    };
    let left: int = if ward_hit {
        a.ward_charges - 1
    } else {
        a.ward_charges as int
    };
    Actor {
        hp: if a.hp >= b {
            (a.hp - b) as u16
        } else {
            0
        },
        awake: true,
        ward_charges: left as u8,
        ward_reweave: if ward_hit && left == 0 {
            terms.1
        } else {
            a.ward_reweave
        },
        regen_stopped: a.regen_stopped || silver_hit,
        dormant: 0,
        ..a
    }
}

/// The actor after the blow.
pub open spec fn struck(sim: &Sim, a: Actor, damage: u16, weakness: bool) -> Actor {
    struck_with(a, damage, doubled(sim, a), warded(sim, a, weakness), silvered(sim, a, weakness), ward_terms(sim))
}

/// The lines a blow logs: the ward's telegraph (breaking or holding),
/// silver biting, the dormant villain rising, then the blow itself on
/// `name` for `hit`.
pub open spec fn blow_lines(
    sim: &Sim,
    ward_hit: bool,
    ward_broken: bool,
    silver_hit: bool,
    rises: bool,
    name: Seq<char>,
    hit: int,
) -> Seq<(EventKind, Seq<char>)> {
    let ward = sim.spec_villain().ward->0;
    (if ward_hit {
        seq![(
            EventKind::Telegraph,
            sim.catalogue.strings.resolve(
                if ward_broken {
                    ward.break_telegraph.0@
                } else {
                    ward.absorb_telegraph.0@
                },
            ),
        )]
    } else {
        seq![]
    }) + (if silver_hit {
        seq![(EventKind::Telegraph, ui_text(sim, "log.combat.silver-bites"@))]
    } else {
        seq![]
    }) + (if rises {
        seq![(EventKind::Telegraph, ui_text(sim, "log.villain.rises"@))]
    } else {
        seq![]
    }) + seq![(
        EventKind::Combat,
        filled(sim, "log.combat.strike"@, seq![("target"@, name), ("damage"@, decimal(hit as nat))]),
    )]
}

/// The lines the blow on `a` logs.
pub open spec fn strike_lines(sim: &Sim, a: Actor, damage: u16, weakness: bool) -> Seq<(EventKind, Seq<char>)> {
    blow_lines(
        sim,
        warded(sim, a, weakness),
        charges_left(sim, a, weakness) == 0,
        silvered(sim, a, weakness),
        a.dormant > 0 && a.kind is Villain,
        actor_name_text(sim, a.kind),
        blow(sim, a, damage, weakness),
    )
}

/// The line a guarded villain logs instead of taking the blow.
pub open spec fn guard_line(sim: &Sim) -> (EventKind, Seq<char>) {
    (EventKind::Telegraph, sim.catalogue.strings.resolve(sim.spec_villain().cadence->0.guarded_telegraph.0@))
}

/// What the blow needs to be read without a missing piece.
pub open spec fn strike_readable(sim: &Sim, id: ActorId, damage: u16) -> bool {
    &&& sim.vulnerability_readable(id)
    &&& forall|k: int|
        first_with_id(sim.state.actors@, id, k) ==> {
            let a = sim.state.actors@[k];
            &&& a.kind is Villain ==> sim.has_villain_def()
            &&& doubled(sim, a) ==> damage * 2 <= u16::MAX
        }
}

/// Everything but the actors and the log is as in `other`.
pub open spec fn same_but_blow(s: RunState, other: RunState) -> bool {
    &&& s.rng == other.rng
    &&& s.clock == other.clock
    &&& s.final_hunt == other.final_hunt
    &&& s.deaths == other.deaths
    &&& s.local_turn == other.local_turn
    &&& s.current_map == other.current_map
    &&& s.hunter == other.hunter
    &&& s.next_actor_id == other.next_actor_id
    &&& s.npcs == other.npcs
    &&& s.villain == other.villain
    &&& s.terrain_overrides == other.terrain_overrides
    &&& s.discovered == other.discovered
    &&& s.resolved == other.resolved
    &&& s.lost == other.lost
    &&& s.identity_clues == other.identity_clues
    &&& s.discriminating_identity == other.discriminating_identity
    &&& s.origin_identified == other.origin_identified
    &&& s.scheme_identified == other.scheme_identified
    &&& s.scheme_preempted == other.scheme_preempted
    &&& s.villain_uncovered == other.villain_uncovered
    &&& s.villain_location_known == other.villain_location_known
    &&& s.met_npcs == other.met_npcs
    &&& s.known_links == other.known_links
    &&& s.known_secrets == other.known_secrets
    &&& s.disproved_secrets == other.disproved_secrets
    &&& s.seen == other.seen
    &&& s.visible == other.visible
    &&& s.church_consecrated == other.church_consecrated
    &&& s.settlement_hostile == other.settlement_hostile
    &&& s.sight_penalty == other.sight_penalty
    &&& s.sight_bonus == other.sight_bonus
    &&& s.arrived == other.arrived
    &&& s.event_cursor == other.event_cursor
    &&& s.opened_graves == other.opened_graves
    &&& s.snares == other.snares
    &&& s.wards == other.wards
    &&& s.outcome == other.outcome
}

fn actor_index(actors: &Vec<Actor>, id: ActorId) -> (r: Option<usize>)
    ensures
        r is None <==> !exists|k: int| first_with_id(actors@, id, k),
        r matches Some(k) ==> first_with_id(actors@, id, k as int),
{
    let mut k: usize = 0;
    while k < actors.len()
        invariant
            k <= actors@.len(),
            forall|m: int| 0 <= m < k ==> (#[trigger] actors@[m]).id != id,
        decreases actors@.len() - k,
    {
        if actors[k].id == id {
            proof {
                assert(first_with_id(actors@, id, k as int));
            }
            return Some(k);
        }
        k = k + 1;
    }
    proof {
        assert forall|j: int| !first_with_id(actors@, id, j) by {
            if 0 <= j < actors@.len() {
                assert(actors@[j].id != id);
            }
        }
    }
    None
}

fn strike(a: Actor, damage: u16, doubling: bool, ward_hit: bool, silver_hit: bool, terms: (u16, u8)) -> (r: Actor)
    requires
        doubling ==> damage * 2 <= u16::MAX,
        ward_hit ==> a.ward_charges > 0,
    ensures
        r == struck_with(a, damage, doubling, ward_hit, silver_hit, terms),
{
    let mut actor = a;
    let mut hit: u16 = if doubling {
        damage * 2
    } else {
        damage
    };
    if ward_hit {
        let remaining = actor.ward_charges - 1;
        actor.ward_charges = remaining;
        if remaining == 0 {
            actor.ward_reweave = terms.1;
        }
        hit = terms.0;
    }
    if silver_hit {
        actor.regen_stopped = true;
    }
    actor.dormant = 0;
    actor.hp = if actor.hp >= hit {
        actor.hp - hit
    } else {
        0
    };
    actor.awake = true;
    actor
}

/// Everything but the actors, the log, the villain's standing, the
/// outcome, the hunter and the discoveries is as in `other`.
pub open spec fn same_but_spoils(s: RunState, other: RunState) -> bool {
    &&& s.rng == other.rng
    &&& s.clock == other.clock
    &&& s.final_hunt == other.final_hunt
    &&& s.deaths == other.deaths
    &&& s.local_turn == other.local_turn
    &&& s.current_map == other.current_map
    &&& s.next_actor_id == other.next_actor_id
    &&& s.npcs == other.npcs
    &&& s.terrain_overrides == other.terrain_overrides
    &&& s.resolved == other.resolved
    &&& s.lost == other.lost
    &&& s.identity_clues == other.identity_clues
    &&& s.discriminating_identity == other.discriminating_identity
    &&& s.origin_identified == other.origin_identified
    &&& s.scheme_identified == other.scheme_identified
    &&& s.scheme_preempted == other.scheme_preempted
    &&& s.villain_uncovered == other.villain_uncovered
    &&& s.villain_location_known == other.villain_location_known
    &&& s.met_npcs == other.met_npcs
    &&& s.known_links == other.known_links
    &&& s.known_secrets == other.known_secrets
    &&& s.disproved_secrets == other.disproved_secrets
    &&& s.seen == other.seen
    &&& s.visible == other.visible
    &&& s.church_consecrated == other.church_consecrated
    &&& s.settlement_hostile == other.settlement_hostile
    &&& s.sight_penalty == other.sight_penalty
    &&& s.sight_bonus == other.sight_bonus
    &&& s.arrived == other.arrived
    &&& s.event_cursor == other.event_cursor
    &&& s.opened_graves == other.opened_graves
    &&& s.snares == other.snares
    &&& s.wards == other.wards
}

/// The items a slain foe may drop, by the draw's index; the last draw is a
/// scrap pointing at a lead.
pub open spec fn loot_item(i: int) -> Seq<char> {
    if i == 0 {
        "flintlock-shot"@
    } else if i == 1 {
        "coin"@
    } else if i == 2 {
        "moon-herb"@
    } else {
        "bitter-root"@
    }
}

/// An opportunity a scrap can point at: on this map, not yet found, found
/// by sight.
pub open spec fn scrap_candidate(sim: &Sim, o: OpportunitySpec) -> bool {
    &&& o.map == sim.state.current_map
    &&& !sim.state.discovered@.contains(o.id)
    &&& (o.discovery is Sight || o.discovery is SightOr)
}

/// How far the hunter stands from an opportunity's anchor.
pub open spec fn anchor_distance(sim: &Sim, o: OpportunitySpec) -> int {
    match o.anchor {
        OpportunityAnchor::Tile(at) => chebyshev(sim.state.hunter.pos, at),
        OpportunityAnchor::Npc(n) => chebyshev(sim.state.hunter.pos, sim.state.npcs@[n.0 as int].pos),
    }
}

/// The `k`-th opportunity is the nearest a scrap can point at, the first
/// listed of the nearest.
pub open spec fn nearest_scrap(sim: &Sim, k: int) -> bool {
    let opps = sim.world.opportunities@;
    &&& 0 <= k < opps.len()
    &&& scrap_candidate(sim, opps[k])
    &&& forall|m: int|
        0 <= m < opps.len() && scrap_candidate(sim, #[trigger] opps[m]) ==> anchor_distance(sim, opps[k])
            <= anchor_distance(sim, opps[m])
    &&& forall|m: int|
        0 <= m < k && scrap_candidate(sim, #[trigger] opps[m]) ==> anchor_distance(sim, opps[m]) > anchor_distance(
            sim,
            opps[k],
        )
}

/// The lines a slain actor leaves: the villain destroyed, or a foe slain
/// and what it dropped.
pub open spec fn death_lines(sim: &Sim, a: Actor, loot: Option<usize>) -> Seq<(EventKind, Seq<char>)> {
    if a.kind is Villain {
        seq![(
            EventKind::System,
            filled(
                sim,
                "log.combat.villain-destroyed"@,
                seq![("villain"@, sim.catalogue.strings.resolve(sim.spec_villain().name.0@))],
            ),
        )]
    } else {
        seq![(EventKind::Combat, filled(sim, "log.combat.slain"@, seq![("target"@, actor_name_text(sim, a.kind))]))]
            + match loot {
            None => seq![],
            Some(i) => if i < 4 {
                seq![(
                    EventKind::Item,
                    filled(sim, "log.loot.dropped"@, seq![("item"@, item_label(sim, loot_item(i as int)))]),
                )]
            } else if exists|k: int| nearest_scrap(sim, k) {
                let k = choose|k: int| nearest_scrap(sim, k);
                seq![(
                    EventKind::Clue,
                    filled(sim, "log.clue.scrap"@, seq![("what"@, sim.world.opportunities@[k].name@)]),
                )]
            } else {
                seq![(EventKind::Item, ui_text(sim, "log.loot.coin"@))]
            },
        }
    }
}

/// What a death changes beyond the log: the villain destroyed and the run
/// won, or a foe's drop carried or its scrap's lead found.
pub open spec fn spoils(sim: &Sim, before: RunState, after: RunState, a: Actor, loot: Option<usize>) -> bool {
    if a.kind is Villain {
        &&& after.villain == (crate::state::VillainRunState { dead: true, active: false, ..before.villain })
        &&& after.outcome == Some(Outcome::Victory)
        &&& after.hunter == before.hunter
        &&& after.discovered == before.discovered
    } else {
        &&& after.villain == before.villain
        &&& after.outcome == before.outcome
        &&& match loot {
            Some(i) => if i < 4 {
                HunterState::added(&before.hunter, &after.hunter, loot_item(i as int), 1)
                    && after.discovered == before.discovered
            } else if exists|k: int| nearest_scrap(sim, k) {
                let k = choose|k: int| nearest_scrap(sim, k);
                after.hunter == before.hunter && after.discovered@ == before.discovered@.push(
                    sim.world.opportunities@[k].id,
                )
            } else {
                HunterState::added(&before.hunter, &after.hunter, "coin"@, 1) && after.discovered == before.discovered
            },
            None => after.hunter == before.hunter && after.discovered == before.discovered,
        }
    }
}

/// The hunter has room in the pack for whatever a drop could add, and every
/// scrap's anchor is a villager of the run.
pub open spec fn spoils_readable(sim: &Sim, loot: Option<usize>) -> bool {
    &&& loot matches Some(i) ==> i < 5
    &&& forall|item: Seq<char>| sim.state.hunter.spec_item_count(item) < u16::MAX
    &&& forall|k: int|
        0 <= k < sim.world.opportunities@.len() ==> match (#[trigger] sim.world.opportunities@[k]).anchor {
            OpportunityAnchor::Npc(n) => (n.0 as int) < sim.state.npcs@.len(),
            OpportunityAnchor::Tile(_) => true,
        }
}

fn reach(a: Point, b: Point) -> (r: i32)
    ensures
        r == chebyshev(a, b),
{
    let dx = a.x as i32 - b.x as i32;
    let dy = a.y as i32 - b.y as i32;
    let ax = if dx < 0 {
        -dx
    } else {
        dx
    };
    let ay = if dy < 0 {
        -dy
    } else {
        dy
    };
    if ax >= ay {
        ax
    } else {
        ay
    }
}

proof fn lemma_logged_chain(
    l0: Seq<LogEvent>,
    l1: Seq<LogEvent>,
    l2: Seq<LogEvent>,
    st: RunState,
    x: Seq<(EventKind, Seq<char>)>,
    y: Seq<(EventKind, Seq<char>)>,
)
    requires
        logged_lines(l0, l1, st, x),
        logged_lines(l1, l2, st, y),
    ensures
        logged_lines(l0, l2, st, x + y),
{
    assert forall|i: int| 0 <= i < l0.len() implies #[trigger] l2[i] == l0[i] by {
        assert(l2[i] == l1[i]);
    }
    assert forall|j: int| 0 <= j < (x + y).len() implies logged_now(
        st,
        l2[l0.len() + j],
        (x + y)[j].0,
        #[trigger] (x + y)[j].1,
    ) by {
        if j < x.len() {
            assert((x + y)[j] == x[j]);
            assert(logged_now(st, l1[l0.len() + j], x[j].0, x[j].1));
            assert(l2[l0.len() + j] == l1[l0.len() + j]);
        } else {
            assert((x + y)[j] == y[j - x.len()]);
            assert(logged_now(st, l2[l1.len() + (j - x.len())], y[j - x.len()].0, y[j - x.len()].1));
        }
    }
}

proof fn lemma_logged_none(l: Seq<LogEvent>, st: RunState)
    ensures
        logged_lines(l, l, st, seq![]),
{
}

impl Sim {
    fn log_text(&mut self, kind: EventKind, id: &StringId)
        ensures
            final(self).state.log@ == old(self).state.log@.push(
                LogEvent {
                    global_turn: old(self).state.clock,
                    local_turn: old(self).state.local_turn,
                    kind,
                    text: final(self).state.log@.last().text,
                },
            ),
            final(self).state.log@.last().text@ == old(self).catalogue.strings.resolve(id.0@),
            final(self).state.same_but_findings(&old(self).state),
            final(self).state.met_npcs == old(self).state.met_npcs,
            final(self).state.discovered == old(self).state.discovered,
            final(self).catalogue == old(self).catalogue,
            final(self).world == old(self).world,
    {
        let text = text_owned(self.catalogue.strings.get(id));
        self.log(kind, text);
    }

    /// How a blow on the `k`-th actor plays: guarded, doubled, soaked by the
    /// ward, biting with silver.
    fn blow_plan(&self, k: usize, weakness: bool) -> (r: (bool, bool, bool, bool))
        requires
            k < self.state.actors@.len(),
            first_with_id(self.state.actors@, self.state.actors@[k as int].id, k as int),
            self.vulnerability_readable(self.state.actors@[k as int].id),
            self.state.actors@[k as int].kind is Villain ==> self.has_villain_def(),
        ensures
            r.0 == guarded(self, self.state.actors@[k as int]),
            r.1 == doubled(self, self.state.actors@[k as int]),
            r.2 == warded(self, self.state.actors@[k as int], weakness),
            r.3 == silvered(self, self.state.actors@[k as int], weakness),
    {
        let a = &self.state.actors[k];
        let is_villain = match a.kind {
            ActorKind::Villain => true,
            _ => false,
        };
        if !is_villain {
            return (false, false, false, false);
        }
        let vulnerable = self.villain_is_vulnerable(a.id);
        let def = self.villain_def();
        let dormant = a.dormant > 0;
        let has_cadence = def.cadence.is_some();
        let guard = has_cadence && !vulnerable && !dormant;
        let doubling = has_cadence && vulnerable && !dormant;
        let ward_hit = !weakness && def.ward.is_some() && a.ward_charges > 0;
        let silver_hit = weakness && def.regeneration.is_some() && !a.regen_stopped;
        (guard, doubling, ward_hit, silver_hit)
    }

    /// Log the lines of a blow.
    fn log_blow(&mut self, ward_hit: bool, ward_broken: bool, silver_hit: bool, rises: bool, name: &str, hit: u16)
        requires
            ward_hit ==> old(self).has_villain_def() && old(self).spec_villain().ward is Some,
        ensures
            logged_lines(
                old(self).state.log@,
                final(self).state.log@,
                old(self).state,
                blow_lines(&*old(self), ward_hit, ward_broken, silver_hit, rises, name@, hit as int),
            ),
            final(self).state.same_but_findings(&old(self).state),
            final(self).state.met_npcs == old(self).state.met_npcs,
            final(self).state.discovered == old(self).state.discovered,
            final(self).catalogue == old(self).catalogue,
            final(self).world == old(self).world,
    {
        let ghost s0 = *self;
        let ghost l0 = self.state.log@;
        let ghost x1: Seq<(EventKind, Seq<char>)> = if ward_hit {
            seq![(
                EventKind::Telegraph,
                s0.catalogue.strings.resolve(
                    if ward_broken {
                        s0.spec_villain().ward->0.break_telegraph.0@
                    } else {
                        s0.spec_villain().ward->0.absorb_telegraph.0@
                    },
                ),
            )]
        } else {
            seq![]
        };
        if ward_hit {
            let def = self.villain_def();
            let telegraph = match &def.ward {
                Some(w) => if ward_broken {
                    StringId(text_owned(w.break_telegraph.as_str()))
                } else {
                    StringId(text_owned(w.absorb_telegraph.as_str()))
                },
                None => StringId(String::new()),
            };
            self.log_text(EventKind::Telegraph, &telegraph);
            proof {
                assert(self.state.log@[l0.len() as int] == self.state.log@.last());
                assert(x1[0].1 == s0.catalogue.strings.resolve(telegraph.0@));
                assert(logged_lines(l0, self.state.log@, s0.state, x1));
            }
        } else {
            proof {
                lemma_logged_none(l0, s0.state);
            }
        }
        let ghost l1 = self.state.log@;
        let ghost x2: Seq<(EventKind, Seq<char>)> = if silver_hit {
            seq![(EventKind::Telegraph, ui_text(&s0, "log.combat.silver-bites"@))]
        } else {
            seq![]
        };
        if silver_hit {
            self.log(EventKind::Telegraph, text_owned(self.catalogue.strings.ui("log.combat.silver-bites")));
            proof {
                assert(self.state.log@[l1.len() as int] == self.state.log@.last());
                assert(logged_lines(l1, self.state.log@, s0.state, x2));
            }
        } else {
            proof {
                lemma_logged_none(l1, s0.state);
            }
        }
        let ghost l2 = self.state.log@;
        let ghost x3: Seq<(EventKind, Seq<char>)> = if rises {
            seq![(EventKind::Telegraph, ui_text(&s0, "log.villain.rises"@))]
        } else {
            seq![]
        };
        if rises {
            self.log(EventKind::Telegraph, text_owned(self.catalogue.strings.ui("log.villain.rises")));
            proof {
                assert(self.state.log@[l2.len() as int] == self.state.log@.last());
                assert(logged_lines(l2, self.state.log@, s0.state, x3));
            }
        } else {
            proof {
                lemma_logged_none(l2, s0.state);
            }
        }
        let ghost l3 = self.state.log@;
        let mut amount = String::new();
        push_number(&mut amount, hit as u128);
        let args = [("target", name), ("damage", amount.as_str())];
        let line = self.catalogue.strings.fill(&StringId(text_owned("log.combat.strike")), &args);
        proof {
            assert(args_view(args@) =~= seq![("target"@, name@), ("damage"@, decimal(hit as nat))]);
        }
        self.log(EventKind::Combat, line);
        let ghost x4: Seq<(EventKind, Seq<char>)> = seq![(
            EventKind::Combat,
            filled(&s0, "log.combat.strike"@, seq![("target"@, name@), ("damage"@, decimal(hit as nat))]),
        )];
        proof {
            assert(self.state.log@[l3.len() as int] == self.state.log@.last());
            assert(logged_lines(l3, self.state.log@, s0.state, x4));
            lemma_logged_chain(l0, l1, l2, s0.state, x1, x2);
            lemma_logged_chain(l0, l2, l3, s0.state, x1 + x2, x3);
            lemma_logged_chain(l0, l3, self.state.log@, s0.state, x1 + x2 + x3, x4);
            assert(x1 + x2 + x3 + x4 =~= blow_lines(&s0, ward_hit, ward_broken, silver_hit, rises, name@, hit as int));
        }
    }

    /// Land a blow of `damage` on the actor `id`; `weakness` marks the
    /// villain's counter. Gives the struck actor's index and whether the
    /// blow killed it, or nothing when there is no such actor or its guard
    /// turned the blow aside.
    #[verifier::spinoff_prover]
    #[verifier::rlimit(80)]
    fn land_blow(&mut self, id: ActorId, damage: u16, weakness: bool) -> (r: Option<(usize, bool)>)
        requires
            strike_readable(&*old(self), id, damage),
        ensures
            final(self).catalogue == old(self).catalogue,
            final(self).world == old(self).world,
            r matches Some((j, _)) ==> first_with_id(old(self).state.actors@, id, j as int),
            (!exists|k: int| first_with_id(old(self).state.actors@, id, k)) ==> r is None && final(self).state
                == old(self).state,
            forall|k: int|
                first_with_id(old(self).state.actors@, id, k) && guarded(&*old(self), old(self).state.actors@[k])
                    ==> r is None && same_but_blow(final(self).state, old(self).state) && final(self).state.actors
                    == old(self).state.actors && logged_lines(
                    old(self).state.log@,
                    final(self).state.log@,
                    old(self).state,
                    seq![guard_line(&*old(self))],
                ),
            forall|k: int|
                first_with_id(old(self).state.actors@, id, k) && !guarded(&*old(self), old(self).state.actors@[k])
                    ==> {
                    let a = old(self).state.actors@[k];
                    let s = struck(&*old(self), a, damage, weakness);
                    &&& r == Some((k as usize, s.hp == 0))
                    &&& same_but_blow(final(self).state, old(self).state)
                    &&& final(self).state.actors@ == old(self).state.actors@.update(k, s)
                    &&& logged_lines(
                        old(self).state.log@,
                        final(self).state.log@,
                        old(self).state,
                        strike_lines(&*old(self), a, damage, weakness),
                    )
                },
    {
        let ghost s0 = *self;
        let k = match actor_index(&self.state.actors, id) {
            Some(k) => k,
            None => {
                return None;
            },
        };
        let ghost a = s0.state.actors@[k as int];
        proof {
            assert forall|j: int| first_with_id(s0.state.actors@, id, j) implies j == k by {
                if j < k {
                    assert(s0.state.actors@[j].id != id);
                } else if j > k {
                    assert(s0.state.actors@[k as int].id != id);
                }
            }
        }
        let (guard, doubling, ward_hit, silver_hit) = self.blow_plan(k, weakness);
        if guard {
            let def = self.villain_def();
            let telegraph = match &def.cadence {
                Some(c) => StringId(text_owned(c.guarded_telegraph.as_str())),
                None => StringId(String::new()),
            };
            self.log_text(EventKind::Telegraph, &telegraph);
            proof {
                assert(self.state.log@[s0.state.log@.len() as int] == self.state.log@.last());
                let one = seq![guard_line(&s0)];
                assert(one[0] == guard_line(&s0));
                assert(logged_lines(s0.state.log@, self.state.log@, s0.state, one));
            }
            return None;
        }
        let terms: (u16, u8) = if ward_hit {
            match &self.villain_def().ward {
                Some(w) => (w.leak_damage, w.reweave_turns),
                None => (0, 0),
            }
        } else {
            (0, 0)
        };
        let rises = self.state.actors[k].dormant > 0 && match self.state.actors[k].kind {
            ActorKind::Villain => true,
            _ => false,
        };
        let name = self.actor_name(&self.state.actors[k].kind);
        let hit: u16 = if ward_hit {
            terms.0
        } else if doubling {
            damage * 2
        } else {
            damage
        };
        let actor = self.state.actors.remove(k);
        let new_actor = strike(actor, damage, doubling, ward_hit, silver_hit, terms);
        let broken = ward_hit && new_actor.ward_charges == 0;
        let killed = new_actor.hp == 0;
        proof {
            assert(new_actor == struck(&s0, a, damage, weakness));
            assert(hit == blow(&s0, a, damage, weakness));
            assert(broken == (warded(&s0, a, weakness) && charges_left(&s0, a, weakness) == 0));
        }
        self.state.actors.insert(k, new_actor);
        proof {
            assert(self.state.actors@ =~= s0.state.actors@.update(k as int, struck(&s0, a, damage, weakness)));
        }
        let ghost mid = *self;
        self.log_blow(ward_hit, broken, silver_hit, rises, name.as_str(), hit);
        proof {
            let lines = strike_lines(&s0, a, damage, weakness);
            assert(lines == blow_lines(&mid, ward_hit, broken, silver_hit, rises, name@, hit as int));
            assert(logged_lines(s0.state.log@, self.state.log@, s0.state, lines));
        }
        Some((k, killed))
    }

    /// The nearest opportunity a scrap can point at, the first listed of
    /// the nearest.
    fn nearest_scrap_index(&self) -> (r: Option<usize>)
        requires
            forall|k: int|
                0 <= k < self.world.opportunities@.len() ==> match (#[trigger] self.world.opportunities@[k]).anchor {
                    OpportunityAnchor::Npc(n) => (n.0 as int) < self.state.npcs@.len(),
                    OpportunityAnchor::Tile(_) => true,
                },
        ensures
            r is None <==> !exists|k: int| nearest_scrap(self, k),
            r matches Some(k) ==> nearest_scrap(self, k as int),
    {
        let opps = &self.world.opportunities;
        let hunter = self.state.hunter.pos;
        let mut best: Option<(usize, i32)> = None;
        let mut k: usize = 0;
        while k < opps.len()
            invariant
                k <= opps@.len(),
                *opps == self.world.opportunities,
                hunter == self.state.hunter.pos,
                forall|m: int|
                    0 <= m < opps@.len() ==> match (#[trigger] opps@[m]).anchor {
                        OpportunityAnchor::Npc(n) => (n.0 as int) < self.state.npcs@.len(),
                        OpportunityAnchor::Tile(_) => true,
                    },
                best is None ==> forall|m: int| 0 <= m < k ==> !scrap_candidate(self, #[trigger] opps@[m]),
                best matches Some((b, d)) ==> {
                    &&& b < k
                    &&& scrap_candidate(self, opps@[b as int])
                    &&& d == anchor_distance(self, opps@[b as int])
                    &&& forall|m: int|
                        0 <= m < k && scrap_candidate(self, #[trigger] opps@[m]) ==> d <= anchor_distance(self, opps@[m])
                    &&& forall|m: int|
                        0 <= m < b && scrap_candidate(self, #[trigger] opps@[m]) ==> anchor_distance(self, opps@[m]) > d
                },
            decreases opps@.len() - k,
        {
            let o = &opps[k];
            let sighted = match o.discovery {
                DiscoveryRule::Sight => true,
                DiscoveryRule::SightOr(_) => true,
                _ => false,
            };
            if o.map == self.state.current_map && !opportunity_listed(&self.state.discovered, o.id) && sighted {
                let d = match o.anchor {
                    OpportunityAnchor::Tile(at) => reach(hunter, at),
                    OpportunityAnchor::Npc(n) => {
                        assert((n.0 as int) < self.state.npcs@.len()) by {
                            assert(opps@[k as int] == *o);
                        }
                        reach(hunter, self.state.npcs[n.0 as usize].pos)
                    },
                };
                let better = match best {
                    None => true,
                    Some((_, bd)) => d < bd,
                };
                if better {
                    best = Some((k, d));
                }
            }
            k = k + 1;
        }
        match best {
            Some((b, _)) => {
                proof {
                    assert(nearest_scrap(self, b as int));
                }
                Some(b)
            },
            None => {
                proof {
                    assert forall|j: int| !nearest_scrap(self, j) by {
                        if 0 <= j < opps@.len() {
                            assert(!scrap_candidate(self, opps@[j]));
                        }
                    }
                }
                None
            },
        }
    }
}

impl Sim {
    /// What the death of the `k`-th actor brings: the villain destroyed and
    /// the run won, or a foe slain and, when the drop roll `loot` came up,
    /// what it dropped.
    #[verifier::spinoff_prover]
    #[verifier::rlimit(60)]
    fn handle_actor_death(&mut self, k: usize, loot: Option<usize>)
        requires
            k < old(self).state.actors@.len(),
            old(self).state.actors@[k as int].kind is Villain ==> old(self).has_villain_def(),
            spoils_readable(&*old(self), loot),
        ensures
            logged_lines(
                old(self).state.log@,
                final(self).state.log@,
                old(self).state,
                death_lines(&*old(self), old(self).state.actors@[k as int], loot),
            ),
            spoils(&*old(self), old(self).state, final(self).state, old(self).state.actors@[k as int], loot),
            same_but_spoils(final(self).state, old(self).state),
            final(self).state.actors == old(self).state.actors,
            final(self).catalogue == old(self).catalogue,
            final(self).world == old(self).world,
    {
        let ghost s0 = *self;
        let ghost a = s0.state.actors@[k as int];
        let is_villain = match self.state.actors[k].kind {
            ActorKind::Villain => true,
            _ => false,
        };
        if is_villain {
            self.state.villain.dead = true;
            self.state.villain.active = false;
            self.state.outcome = Some(Outcome::Victory);
            let def = self.villain_def();
            let args = [("villain", self.catalogue.strings.get(&def.name))];
            let line = self.catalogue.strings.fill(&StringId(text_owned("log.combat.villain-destroyed")), &args);
            proof {
                assert(args_view(args@) =~= seq![("villain"@, s0.catalogue.strings.resolve(s0.spec_villain().name.0@))]);
            }
            let ghost l0 = self.state.log@;
            self.log(EventKind::System, line);
            proof {
                assert(self.state.log@[l0.len() as int] == self.state.log@.last());
                let lines = death_lines(&s0, a, loot);
                assert(lines[0].1 == line@);
                assert(self.state.villain == (crate::state::VillainRunState { dead: true, active: false, ..s0.state.villain }));
            }
            return;
        }
        let found = match loot {
            Some(i) => if i >= 4 {
                self.nearest_scrap_index()
            } else {
                None
            },
            None => None,
        };
        proof {
            if found is Some {
                let c = choose|c: int| nearest_scrap(&s0, c);
                lemma_nearest_unique(&s0, c, found->0 as int);
            }
        }
        let name = self.actor_name(&self.state.actors[k].kind);
        let args = [("target", name.as_str())];
        let line = self.catalogue.strings.fill(&StringId(text_owned("log.combat.slain")), &args);
        proof {
            assert(args_view(args@) =~= seq![("target"@, actor_name_text(&s0, a.kind))]);
        }
        let ghost l0 = self.state.log@;
        self.log(EventKind::Combat, line);
        let ghost slain = seq![(EventKind::Combat, filled(&s0, "log.combat.slain"@, seq![("target"@, actor_name_text(&s0, a.kind))]))];
        proof {
            assert(self.state.log@[l0.len() as int] == self.state.log@.last());
            assert(slain[0].1 == line@);
            assert(logged_lines(l0, self.state.log@, s0.state, slain));
        }
        let ghost l1 = self.state.log@;
        let ghost s1 = *self;
        match loot {
            None => {
                proof {
                    assert(death_lines(&s0, a, loot) =~= slain);
                }
            },
            Some(i) => {
                if i < 4 {
                    let item = if i == 0 {
                        "flintlock-shot"
                    } else if i == 1 {
                        "coin"
                    } else if i == 2 {
                        "moon-herb"
                    } else {
                        "bitter-root"
                    };
                    assert(item@ == loot_item(i as int));
                    self.state.hunter.add_item(item, 1);
                    let what = self.item_name(item);
                    let args = [("item", what.as_str())];
                    let line = self.catalogue.strings.fill(&StringId(text_owned("log.loot.dropped")), &args);
                    proof {
                        assert(args_view(args@) =~= seq![("item"@, item_label(&s0, loot_item(i as int)))]);
                    }
                    let ghost l2 = self.state.log@;
                    self.log(EventKind::Item, line);
                    proof {
                        assert(self.state.log@[l2.len() as int] == self.state.log@.last());
                        let drop = seq![(
                            EventKind::Item,
                            filled(&s0, "log.loot.dropped"@, seq![("item"@, item_label(&s0, loot_item(i as int)))]),
                        )];
                        assert(drop[0].1 == line@);
                        assert(logged_lines(l2, self.state.log@, s0.state, drop));
                        lemma_logged_chain(l0, l1, self.state.log@, s0.state, slain, drop);
                        assert(death_lines(&s0, a, loot) =~= slain + drop);
                    }
                } else {
                    match found {
                        Some(j) => {
                            let id = self.world.opportunities[j].id;
                            self.state.discovered.push(id);
                            let args = [("what", self.world.opportunities[j].name.as_str())];
                            let line = self.catalogue.strings.fill(&StringId(text_owned("log.clue.scrap")), &args);
                            proof {
                                assert(args_view(args@) =~= seq![("what"@, s0.world.opportunities@[j as int].name@)]);
                            }
                            let ghost l2 = self.state.log@;
                            self.log(EventKind::Clue, line);
                            proof {
                                assert(self.state.log@[l2.len() as int] == self.state.log@.last());
                                let scrap = seq![(
                                    EventKind::Clue,
                                    filled(&s0, "log.clue.scrap"@, seq![("what"@, s0.world.opportunities@[j as int].name@)]),
                                )];
                                assert(scrap[0].1 == line@);
                                assert(logged_lines(l2, self.state.log@, s0.state, scrap));
                                lemma_logged_chain(l0, l1, self.state.log@, s0.state, slain, scrap);
                                assert(death_lines(&s0, a, loot) =~= slain + scrap);
                            }
                        },
                        None => {
                            self.state.hunter.add_item("coin", 1);
                            let ghost l2 = self.state.log@;
                            self.log(EventKind::Item, text_owned(self.catalogue.strings.ui("log.loot.coin")));
                            proof {
                                assert(self.state.log@[l2.len() as int] == self.state.log@.last());
                                let coin = seq![(EventKind::Item, ui_text(&s0, "log.loot.coin"@))];
                                assert(logged_lines(l2, self.state.log@, s0.state, coin));
                                lemma_logged_chain(l0, l1, self.state.log@, s0.state, slain, coin);
                                assert(death_lines(&s0, a, loot) =~= slain + coin);
                            }
                        },
                    }
                }
            },
        }
    }
}

/// At most one opportunity is the nearest a scrap can point at.
proof fn lemma_nearest_unique(sim: &Sim, a: int, b: int)
    requires
        nearest_scrap(sim, a),
        nearest_scrap(sim, b),
    ensures
        a == b,
{
    let opps = sim.world.opportunities@;
    if a < b {
        assert(scrap_candidate(sim, opps[a]));
        assert(anchor_distance(sim, opps[a]) > anchor_distance(sim, opps[b]));
        assert(anchor_distance(sim, opps[a]) <= anchor_distance(sim, opps[b]));
    } else if b < a {
        assert(scrap_candidate(sim, opps[b]));
        assert(anchor_distance(sim, opps[b]) > anchor_distance(sim, opps[a]));
        assert(anchor_distance(sim, opps[b]) <= anchor_distance(sim, opps[a]));
    }
}

/// A scrap points at the same lead in two runs that agree on the map, the
/// discoveries, the hunter's place and the villagers.
proof fn lemma_scrap_same(x: &Sim, y: &Sim)
    requires
        x.world == y.world,
        x.state.current_map == y.state.current_map,
        x.state.discovered == y.state.discovered,
        x.state.hunter == y.state.hunter,
        x.state.npcs == y.state.npcs,
    ensures
        forall|k: int| nearest_scrap(x, k) == nearest_scrap(y, k),
{
    assert forall|o: OpportunitySpec| scrap_candidate(x, o) == scrap_candidate(y, o) && anchor_distance(x, o)
        == anchor_distance(y, o) by {}
    assert forall|k: int| nearest_scrap(x, k) == nearest_scrap(y, k) by {
        let opps = x.world.opportunities@;
        if nearest_scrap(x, k) {
            assert forall|m: int|
                0 <= m < opps.len() && scrap_candidate(y, #[trigger] opps[m]) implies anchor_distance(y, opps[k])
                <= anchor_distance(y, opps[m]) by {
                assert(scrap_candidate(x, opps[m]));
            }
            assert forall|m: int|
                0 <= m < k && scrap_candidate(y, #[trigger] opps[m]) implies anchor_distance(y, opps[m])
                > anchor_distance(y, opps[k]) by {
                assert(scrap_candidate(x, opps[m]));
            }
        }
        if nearest_scrap(y, k) {
            assert forall|m: int|
                0 <= m < opps.len() && scrap_candidate(x, #[trigger] opps[m]) implies anchor_distance(x, opps[k])
                <= anchor_distance(x, opps[m]) by {
                assert(scrap_candidate(y, opps[m]));
            }
            assert forall|m: int|
                0 <= m < k && scrap_candidate(x, #[trigger] opps[m]) implies anchor_distance(x, opps[m])
                > anchor_distance(x, opps[k]) by {
                assert(scrap_candidate(y, opps[m]));
            }
        }
    }
}

/// A death reads and rewards the same after the blow as it would have
/// before it: the blow touches nothing a death reads.
proof fn lemma_death_same(x: &Sim, y: &Sim, a: Actor, b: Actor, loot: Option<usize>, after: RunState)
    requires
        x.world == y.world,
        x.catalogue == y.catalogue,
        same_but_blow(y.state, x.state),
        a.kind == b.kind,
    ensures
        death_lines(y, b, loot) == death_lines(x, a, loot),
        spoils(y, y.state, after, b, loot) ==> spoils(x, x.state, after, a, loot),
{
    lemma_scrap_same(x, y);
    if exists|k: int| nearest_scrap(x, k) {
        let cx = choose|k: int| nearest_scrap(x, k);
        assert(nearest_scrap(y, cx));
        let cy = choose|k: int| nearest_scrap(y, k);
        assert(nearest_scrap(x, cy));
        lemma_nearest_unique(x, cx, cy);
    } else {
        assert(!exists|k: int| nearest_scrap(y, k)) by {
            if exists|k: int| nearest_scrap(y, k) {
                let cy = choose|k: int| nearest_scrap(y, k);
                assert(nearest_scrap(x, cy));
            }
        }
    }
}

impl Sim {
    /// A blow of `damage` on the actor `id`: `weakness` marks the villain's
    /// counter, and `loot` is the drop roll a slain foe's death reads (the
    /// drawn entry of the drop table, or nothing when no drop came up).
    /// A villain with a cadence turns an untimely blow aside; otherwise the
    /// blow lands, doubled in the vulnerability window, soaked by a standing
    /// ward, stopping regeneration when silver bites, waking the dormant,
    /// and a death follows when it kills.
    #[verifier::spinoff_prover]
    #[verifier::rlimit(80)]
    pub fn deal_damage_to_actor(&mut self, id: ActorId, damage: u16, weakness: bool, loot: Option<usize>)
        requires
            strike_readable(&*old(self), id, damage),
            spoils_readable(&*old(self), loot),
        ensures
            final(self).catalogue == old(self).catalogue,
            final(self).world == old(self).world,
            (!exists|k: int| first_with_id(old(self).state.actors@, id, k)) ==> final(self).state == old(self).state,
            forall|k: int|
                first_with_id(old(self).state.actors@, id, k) && guarded(&*old(self), old(self).state.actors@[k])
                    ==> same_but_blow(final(self).state, old(self).state) && final(self).state.actors
                    == old(self).state.actors && logged_lines(
                    old(self).state.log@,
                    final(self).state.log@,
                    old(self).state,
                    seq![guard_line(&*old(self))],
                ),
            forall|k: int|
                first_with_id(old(self).state.actors@, id, k) && !guarded(&*old(self), old(self).state.actors@[k])
                    ==> {
                    let a = old(self).state.actors@[k];
                    let s = struck(&*old(self), a, damage, weakness);
                    &&& final(self).state.actors@ == old(self).state.actors@.update(k, s)
                    &&& s.hp > 0 ==> same_but_blow(final(self).state, old(self).state) && logged_lines(
                        old(self).state.log@,
                        final(self).state.log@,
                        old(self).state,
                        strike_lines(&*old(self), a, damage, weakness),
                    )
                    &&& s.hp == 0 ==> same_but_spoils(final(self).state, old(self).state) && spoils(
                        &*old(self),
                        old(self).state,
                        final(self).state,
                        a,
                        loot,
                    ) && logged_lines(
                        old(self).state.log@,
                        final(self).state.log@,
                        old(self).state,
                        strike_lines(&*old(self), a, damage, weakness) + death_lines(&*old(self), a, loot),
                    )
                },
    {
        let ghost s0 = *self;
        let landed = self.land_blow(id, damage, weakness);
        match landed {
            Some((k, true)) => {
                let ghost mid = *self;
                let ghost a = s0.state.actors@[k as int];
                proof {
                    assert(first_with_id(s0.state.actors@, id, k as int));
                    assert(mid.state.actors@[k as int] == struck(&s0, a, damage, weakness));
                    assert(forall|item: Seq<char>| mid.state.hunter.spec_item_count(item) == s0.state.hunter.spec_item_count(item));
                }
                self.handle_actor_death(k, loot);
                proof {
                    let b = mid.state.actors@[k as int];
                    lemma_death_same(&s0, &mid, a, b, loot, self.state);
                    lemma_logged_chain(
                        s0.state.log@,
                        mid.state.log@,
                        self.state.log@,
                        s0.state,
                        strike_lines(&s0, a, damage, weakness),
                        death_lines(&s0, a, loot),
                    );
                    assert forall|j: int| first_with_id(s0.state.actors@, id, j) implies j == k by {
                        if j < k {
                            assert(s0.state.actors@[j].id != id);
                        } else if j > k {
                            assert(s0.state.actors@[k as int].id != id);
                        }
                    }
                }
            },
            _ => {},
        }
    }
}

} // verus!
