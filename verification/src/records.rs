//! The list screens kept during a run: the record of events by day, the
//! region's roads, and the villagers the hunter has met.
use vstd::prelude::*;

use crate::client::{join_parts, joined_with, ui_text};
use crate::frame::filled;
use crate::sim::Sim;
use crate::strings::{args_view, StringId};
use crate::text::{decimal, push_number, push_text, text_eq, text_owned};
use crate::world::{link_key, spec_link_key, Disposition, ExitSpec, NpcId, NpcSpec};
use crate::schema::MapRole;
use crate::view::opportunity_listed;

verus! {

/// A list screen's entries as texts: each heading with its body.
pub open spec fn entry_texts(entries: Seq<(String, String)>) -> Seq<(Seq<char>, Seq<char>)> {
    entries.map_values(|e: (String, String)| (e.0@, e.1@))
}

/// The heading for events of travel day `day`: the day of how many, or the
/// final night once the days have run out.
pub open spec fn day_heading(sim: &Sim, day: u8) -> Seq<char> {
    let total = sim.catalogue.balance.clock.travel_turns;
    if day >= total {
        ui_text(sim, "ui.clock.final-night"@)
    } else {
        filled(sim, "ui.clock.day"@, seq![("day"@, decimal(day as nat)), ("total"@, decimal(total as nat))])
    }
}

/// The record of the first `n` events: one entry per run of events under
/// the same heading, their texts a line each.
pub open spec fn record_upto(sim: &Sim, n: int) -> Seq<(Seq<char>, Seq<char>)>
    decreases n,
{
    if n <= 0 {
        seq![]
    } else {
        let prev = record_upto(sim, n - 1);
        let e = sim.state.log@[n - 1];
        let h = day_heading(sim, e.global_turn);
        if prev.len() > 0 && prev.last().0 == h {
            prev.update(prev.len() - 1, (h, prev.last().1 + "\n"@ + e.text@))
        } else {
            prev.push((h, e.text@))
        }
    }
}

fn day_line(sim: &Sim, day: u8) -> (r: String)
    ensures
        r@ == day_heading(sim, day),
{
    let total = sim.catalogue.balance.clock.travel_turns;
    if day >= total {
        text_owned(sim.catalogue.strings.ui("ui.clock.final-night"))
    } else {
        let mut d = String::new();
        push_number(&mut d, day as u128);
        let mut t = String::new();
        push_number(&mut t, total as u128);
        let args = [("day", d.as_str()), ("total", t.as_str())];
        let r = sim.catalogue.strings.fill(&StringId(text_owned("ui.clock.day")), &args);
        proof {
            assert(args_view(args@) =~= seq![("day"@, decimal(day as nat)), ("total"@, decimal(total as nat))]);
        }
        r
    }
}

/// The event log screen: the record, grouped by day.
pub fn record_entries(sim: &Sim) -> (r: Vec<(String, String)>)
    ensures
        entry_texts(r@) == record_upto(sim, sim.state.log@.len() as int),
{
    let log = &sim.state.log;
    let mut entries: Vec<(String, String)> = Vec::new();
    let mut k: usize = 0;
    while k < log.len()
        invariant
            k <= log@.len(),
            *log == sim.state.log,
            entry_texts(entries@) == record_upto(sim, k as int),
        decreases log@.len() - k,
    {
        let event = &log[k];
        let heading = day_line(sim, event.global_turn);
        let ghost prev = entry_texts(entries@);
        let n = entries.len();
        let same = n > 0 && text_eq(entries[n - 1].0.as_str(), heading.as_str());
        if same {
            let last = entries.pop();
            match last {
                Some((h, mut body)) => {
                    push_text(&mut body, "\n");
                    push_text(&mut body, event.text.as_str());
                    entries.push((h, body));
                    proof {
                        assert(entry_texts(entries@) =~= prev.update(
                            prev.len() - 1,
                            (heading@, prev.last().1 + "\n"@ + event.text@),
                        ));
                    }
                },
                None => {},
            }
        } else {
            entries.push((heading, text_owned(event.text.as_str())));
            proof {
                assert(entry_texts(entries@) =~= prev.push((day_heading(sim, event.global_turn), event.text@)));
            }
        }
        k = k + 1;
    }
    entries
}

/// A road out of a map: where it leads, with the chance of an ambush when
/// the road runs through the wild.
pub open spec fn road_text(sim: &Sim, e: ExitSpec) -> Seq<char> {
    let place = sim.world.maps@[e.to_map.0 as int].name@;
    if e.ambush_route {
        filled(
            sim,
            "ui.travel.ambush-route"@,
            seq![("place"@, place), ("percent"@, decimal(sim.world.ambush_percent as nat))],
        )
    } else {
        place
    }
}

/// What kind of place a map is, in words.
pub open spec fn role_text(sim: &Sim, role: MapRole) -> Seq<char> {
    match role {
        MapRole::Settlement => ui_text(sim, "ui.region.settlement"@),
        MapRole::Wilderness => ui_text(sim, "ui.region.wilderness"@),
        MapRole::OutlyingSite => ui_text(sim, "ui.region.outlying"@),
    }
}

/// The region screen's entry for the `i`-th map: its name, marked when the
/// hunter is there, then its kind and its roads.
pub open spec fn region_entry(sim: &Sim, i: int) -> (Seq<char>, Seq<char>) {
    let m = sim.world.maps@[i];
    (
        m.name@ + if sim.state.current_map.0 as int == i {
            "  <- you are here"@
        } else {
            seq![]
        },
        role_text(sim, m.role) + "\nRoads: "@ + joined_with(m.exits@.map_values(|e: ExitSpec| road_text(sim, e)), ", "@),
    )
}

/// Every road leads to a map of the world.
pub open spec fn roads_readable(sim: &Sim) -> bool {
    forall|i: int, k: int|
        0 <= i < sim.world.maps@.len() && 0 <= k < sim.world.maps@[i].exits@.len() ==> ((#[trigger] sim.world.maps@[i].exits@[k]).to_map.0 as int)
            < sim.world.maps@.len()
}

fn road_line(sim: &Sim, e: &ExitSpec) -> (r: String)
    requires
        (e.to_map.0 as int) < sim.world.maps@.len(),
    ensures
        r@ == road_text(sim, *e),
{
    let name = &sim.world.map(e.to_map).name;
    if e.ambush_route {
        let mut pct = String::new();
        push_number(&mut pct, sim.world.ambush_percent as u128);
        let args = [("place", name.as_str()), ("percent", pct.as_str())];
        let r = sim.catalogue.strings.fill(&StringId(text_owned("ui.travel.ambush-route")), &args);
        proof {
            assert(args_view(args@) =~= seq![
                ("place"@, name@),
                ("percent"@, decimal(sim.world.ambush_percent as nat)),
            ]);
        }
        r
    } else {
        text_owned(name.as_str())
    }
}

/// The region screen: every map in order, with its roads.
pub fn region_entries(sim: &Sim) -> (r: Vec<(String, String)>)
    requires
        roads_readable(sim),
    ensures
        entry_texts(r@) == Seq::new(sim.world.maps@.len(), |i: int| region_entry(sim, i)),
{
    let maps = &sim.world.maps;
    let mut entries: Vec<(String, String)> = Vec::new();
    let mut i: usize = 0;
    while i < maps.len()
        invariant
            i <= maps@.len(),
            *maps == sim.world.maps,
            roads_readable(sim),
            entry_texts(entries@) == Seq::new(i as nat, |j: int| region_entry(sim, j)),
        decreases maps@.len() - i,
    {
        let m = &maps[i];
        let mut roads: Vec<String> = Vec::new();
        let mut k: usize = 0;
        while k < m.exits.len()
            invariant
                k <= m.exits@.len(),
                *m == sim.world.maps@[i as int],
                i < sim.world.maps@.len(),
                roads_readable(sim),
                roads@.map_values(|s: String| s@) == m.exits@.take(k as int).map_values(|e: ExitSpec| road_text(sim, e)),
            decreases m.exits@.len() - k,
        {
            assert((m.exits@[k as int].to_map.0 as int) < sim.world.maps@.len()) by {
                assert(sim.world.maps@[i as int].exits@[k as int] == m.exits@[k as int]);
            }
            let line = road_line(sim, &m.exits[k]);
            let ghost before = roads@.map_values(|s: String| s@);
            roads.push(line);
            proof {
                assert(line@ == road_text(sim, m.exits@[k as int]));
                assert(roads@.map_values(|s: String| s@) =~= before.push(line@));
                assert(m.exits@.take(k + 1) =~= m.exits@.take(k as int).push(m.exits@[k as int]));
                assert(m.exits@.take(k + 1).map_values(|e: ExitSpec| road_text(sim, e)) =~= m.exits@.take(
                    k as int,
                ).map_values(|e: ExitSpec| road_text(sim, e)).push(road_text(sim, m.exits@[k as int])));
                assert(roads@.map_values(|s: String| s@) =~= m.exits@.take(k + 1).map_values(
                    |e: ExitSpec| road_text(sim, e),
                ));
            }
            k = k + 1;
        }
        proof {
            assert(m.exits@.take(k as int) =~= m.exits@);
        }
        let mut heading = text_owned(m.name.as_str());
        if sim.state.current_map.0 as usize == i {
            push_text(&mut heading, "  <- you are here");
        } else {
            proof {
                assert(heading@ =~= heading@ + Seq::<char>::empty());
            }
        }
        let mut body = match m.role {
            MapRole::Settlement => text_owned(sim.catalogue.strings.ui("ui.region.settlement")),
            MapRole::Wilderness => text_owned(sim.catalogue.strings.ui("ui.region.wilderness")),
            MapRole::OutlyingSite => text_owned(sim.catalogue.strings.ui("ui.region.outlying")),
        };
        push_text(&mut body, "\nRoads: ");
        let list = join_parts(&roads, ", ");
        push_text(&mut body, list.as_str());
        let ghost prev = entry_texts(entries@);
        entries.push((heading, body));
        proof {
            assert(entry_texts(entries@) =~= prev.push(region_entry(sim, i as int)));
            assert(prev.push(region_entry(sim, i as int)) =~= Seq::new((i + 1) as nat, |j: int| region_entry(sim, j)));
        }
        i = i + 1;
    }
    entries
}

/// A disposition as the relationships screen spells it.
pub open spec fn disposition_word(d: Disposition) -> Seq<char> {
    match d {
        Disposition::Friendly => "Friendly"@,
        Disposition::Wary => "Wary"@,
        Disposition::Hostile => "Hostile"@,
    }
}

fn disposition_text(d: Disposition) -> (r: &'static str)
    ensures
        r@ == disposition_word(d),
{
    match d {
        Disposition::Friendly => "Friendly",
        Disposition::Wary => "Wary",
        Disposition::Hostile => "Hostile",
    }
}

/// The villager with `spec`'s state in the run.
pub open spec fn npc_state_of(sim: &Sim, spec: NpcSpec) -> crate::state::NpcState {
    sim.state.npcs@[spec.id.0 as int]
}

/// Whether the villager is dead or gone.
pub open spec fn fate_lines(sim: &Sim, spec: NpcSpec) -> Seq<Seq<char>> {
    let st = npc_state_of(sim, spec);
    if !st.alive {
        seq![ui_text(sim, "ui.npc.dead-by-your-hand"@)]
    } else if st.fled {
        seq![ui_text(sim, "ui.npc.fled"@)]
    } else {
        seq![]
    }
}

/// The villager's secret, once learned, and whether it was shown false.
pub open spec fn secret_lines(sim: &Sim, spec: NpcSpec) -> Seq<Seq<char>> {
    if sim.state.known_secrets@.contains(spec.id) {
        seq![
            "Secret: "@ + spec.secret.text@ + if sim.state.disproved_secrets@.contains(spec.id) {
                " (disproved - the whisper is false)"@
            } else {
                seq![]
            },
        ]
    } else {
        seq![]
    }
}

/// The learned ties among the villager's first `n` links.
pub open spec fn link_lines(sim: &Sim, spec: NpcSpec, n: int) -> Seq<Seq<char>>
    decreases n,
{
    if n <= 0 {
        seq![]
    } else {
        let link = spec.links@[n - 1];
        link_lines(sim, spec, n - 1) + if sim.state.known_links@.contains(spec_link_key(spec.id, link.to)) {
            seq![link.discovered_text@]
        } else {
            seq![]
        }
    }
}

/// Everything known of a villager, a line each.
pub open spec fn known_lines(sim: &Sim, spec: NpcSpec) -> Seq<Seq<char>> {
    seq![filled(sim, "ui.npc.disposition"@, seq![("disposition"@, disposition_word(spec.disposition))])] + fate_lines(
        sim,
        spec,
    ) + secret_lines(sim, spec) + link_lines(sim, spec, spec.links@.len() as int)
}

/// The authored name of a villager's role, or nothing for a role the
/// catalogue lacks.
pub open spec fn role_name(sim: &Sim, archetype: Seq<char>) -> Seq<char> {
    match sim.catalogue.npcs.archetypes.lookup(archetype) {
        Some(def) => sim.catalogue.strings.resolve(def.name.0@),
        None => seq![],
    }
}

pub open spec fn relationship_entry(sim: &Sim, spec: NpcSpec) -> (Seq<char>, Seq<char>) {
    (
        filled(sim, "ui.npc.name-and-role"@, seq![("name"@, spec.name@), ("role"@, role_name(sim, spec.archetype@))]),
        joined_with(known_lines(sim, spec), "\n"@),
    )
}

/// The entries for the villagers met, among the first `n` of the world's.
pub open spec fn met_upto(sim: &Sim, n: int) -> Seq<(Seq<char>, Seq<char>)>
    decreases n,
{
    if n <= 0 {
        seq![]
    } else {
        let spec = sim.world.npcs@[n - 1];
        met_upto(sim, n - 1) + if sim.state.met_npcs@.contains(spec.id) {
            seq![relationship_entry(sim, spec)]
        } else {
            seq![]
        }
    }
}

/// The relationships screen: the villagers met, or a note that none are.
pub open spec fn relationships(sim: &Sim) -> Seq<(Seq<char>, Seq<char>)> {
    let met = met_upto(sim, sim.world.npcs@.len() as int);
    if met.len() == 0 {
        seq![(ui_text(sim, "ui.relationships.empty.title"@), ui_text(sim, "ui.relationships.empty.body"@))]
    } else {
        met
    }
}

/// Every villager of the world has a state in the run.
pub open spec fn npcs_indexed(sim: &Sim) -> bool {
    forall|k: int| 0 <= k < sim.world.npcs@.len() ==> ((#[trigger] sim.world.npcs@[k]).id.0 as int) < sim.state.npcs@.len()
}

fn npc_listed(list: &Vec<NpcId>, id: NpcId) -> (r: bool)
    ensures
        r == list@.contains(id),
{
    let mut k: usize = 0;
    while k < list.len()
        invariant
            k <= list@.len(),
            forall|m: int| 0 <= m < k ==> list@[m] != id,
        decreases list@.len() - k,
    {
        if list[k] == id {
            proof {
                assert(list@[k as int] == id);
            }
            return true;
        }
        k = k + 1;
    }
    false
}

fn pair_listed(list: &Vec<(NpcId, NpcId)>, key: (NpcId, NpcId)) -> (r: bool)
    ensures
        r == list@.contains(key),
{
    let mut k: usize = 0;
    while k < list.len()
        invariant
            k <= list@.len(),
            forall|m: int| 0 <= m < k ==> list@[m] != key,
        decreases list@.len() - k,
    {
        if list[k].0 == key.0 && list[k].1 == key.1 {
            proof {
                assert(list@[k as int] == key);
            }
            return true;
        }
        k = k + 1;
    }
    false
}

fn known_text(sim: &Sim, spec: &NpcSpec) -> (r: String)
    requires
        (spec.id.0 as int) < sim.state.npcs@.len(),
    ensures
        r@ == joined_with(known_lines(sim, *spec), "\n"@),
{
    let mut lines: Vec<String> = Vec::new();
    let args = [("disposition", disposition_text(spec.disposition))];
    lines.push(sim.catalogue.strings.fill(&StringId(text_owned("ui.npc.disposition")), &args));
    proof {
        assert(args_view(args@) =~= seq![("disposition"@, disposition_word(spec.disposition))]);
    }
    let st = &sim.state.npcs[spec.id.0 as usize];
    if !st.alive {
        lines.push(text_owned(sim.catalogue.strings.ui("ui.npc.dead-by-your-hand")));
    } else if st.fled {
        lines.push(text_owned(sim.catalogue.strings.ui("ui.npc.fled")));
    }
    let ghost head = seq![filled(sim, "ui.npc.disposition"@, seq![("disposition"@, disposition_word(spec.disposition))])]
        + fate_lines(sim, *spec);
    proof {
        assert(lines@.map_values(|s: String| s@) =~= head);
    }
    if npc_listed(&sim.state.known_secrets, spec.id) {
        let mut line = text_owned("Secret: ");
        push_text(&mut line, spec.secret.text.as_str());
        if npc_listed(&sim.state.disproved_secrets, spec.id) {
            push_text(&mut line, " (disproved - the whisper is false)");
        } else {
            proof {
                assert(line@ =~= line@ + Seq::<char>::empty());
            }
        }
        lines.push(line);
    }
    let ghost head2 = head + secret_lines(sim, *spec);
    proof {
        assert(lines@.map_values(|s: String| s@) =~= head2);
    }
    let mut k: usize = 0;
    while k < spec.links.len()
        invariant
            k <= spec.links@.len(),
            lines@.map_values(|s: String| s@) == head2 + link_lines(sim, *spec, k as int),
        decreases spec.links@.len() - k,
    {
        let link = &spec.links[k];
        let ghost before = lines@.map_values(|s: String| s@);
        if pair_listed(&sim.state.known_links, link_key(spec.id, link.to)) {
            lines.push(text_owned(link.discovered_text.as_str()));
            proof {
                assert(lines@.map_values(|s: String| s@) =~= before.push(link.discovered_text@));
            }
        }
        k = k + 1;
        proof {
            assert(lines@.map_values(|s: String| s@) =~= head2 + link_lines(sim, *spec, k as int));
        }
    }
    proof {
        assert(head2 + link_lines(sim, *spec, k as int) =~= known_lines(sim, *spec));
    }
    join_parts(&lines, "\n")
}

/// The relationships screen: each villager met, in the world's order, with
/// what is known of them; a note when none are met yet.
pub fn relationship_entries(sim: &Sim) -> (r: Vec<(String, String)>)
    requires
        npcs_indexed(sim),
    ensures
        entry_texts(r@) == relationships(sim),
{
    let npcs = &sim.world.npcs;
    let mut entries: Vec<(String, String)> = Vec::new();
    let mut i: usize = 0;
    while i < npcs.len()
        invariant
            i <= npcs@.len(),
            *npcs == sim.world.npcs,
            npcs_indexed(sim),
            entry_texts(entries@) == met_upto(sim, i as int),
        decreases npcs@.len() - i,
    {
        let spec = &npcs[i];
        let ghost prev = entry_texts(entries@);
        if npc_listed(&sim.state.met_npcs, spec.id) {
            assert((spec.id.0 as int) < sim.state.npcs@.len()) by {
                assert(sim.world.npcs@[i as int] == *spec);
            }
            let role = match sim.catalogue.npcs.archetypes.get(spec.archetype.as_str()) {
                Some(def) => sim.catalogue.strings.get(&def.name),
                None => "",
            };
            let args = [("name", spec.name.as_str()), ("role", role)];
            let heading = sim.catalogue.strings.fill(&StringId(text_owned("ui.npc.name-and-role")), &args);
            proof {
                reveal_strlit("");
                assert(role@ == role_name(sim, spec.archetype@));
                assert(args_view(args@) =~= seq![("name"@, spec.name@), ("role"@, role_name(sim, spec.archetype@))]);
            }
            let body = known_text(sim, spec);
            entries.push((heading, body));
            proof {
                assert(entry_texts(entries@) =~= prev.push(relationship_entry(sim, *spec)));
            }
        } else {
            proof {
                assert(prev + seq![] =~= prev);
            }
        }
        i = i + 1;
    }
    if entries.len() == 0 {
        entries.push(
            (
                text_owned(sim.catalogue.strings.ui("ui.relationships.empty.title")),
                text_owned(sim.catalogue.strings.ui("ui.relationships.empty.body")),
            ),
        );
        proof {
            assert(entry_texts(entries@) =~= relationships(sim));
        }
    }
    entries
}

} // verus!
