//! The case dossier: what is known of the quarry, the leads outstanding,
//! the preparations made, and the pack spelled out. The record says what
//! happened; this says where the hunt stands.
use vstd::prelude::*;

use crate::client::{join_parts, joined_with, ui_text};
use crate::economy::{opportunity_cost, spec_opportunity_cost};
use crate::frame::{filled, item_label, shown_day};
use crate::interact::pool_points;
use crate::schema::PoolKind;
use crate::sim::Sim;
use crate::strings::{args_view, StringId};
use crate::text::{decimal, push_number, push_text, text_owned};
use crate::view::{opportunity_listed, pool_name, pool_name_id};
use crate::world::OpportunitySpec;

verus! {

/// `parts` joined a line each.
pub open spec fn lines(parts: Seq<Seq<char>>) -> Seq<char> {
    joined_with(parts, "\n"@)
}

/// The texts of `v`.
pub open spec fn texts_of(v: Seq<String>) -> Seq<Seq<char>> {
    v.map_values(|s: String| s@)
}

/// Enough proofs agree to name the quarry.
pub open spec fn can_name(sim: &Sim) -> bool {
    (sim.state.identity_clues@.len() as u8) >= sim.catalogue.balance.case.corroborating_proofs
}

/// What is known of the quarry, a line each.
pub open spec fn quarry_lines(sim: &Sim) -> Seq<Seq<char>> {
    let st = sim.state;
    seq![
        filled(
            sim,
            "ui.dossier.clock"@,
            seq![
                ("day"@, decimal(shown_day(sim))),
                ("total"@, decimal(sim.catalogue.balance.clock.travel_turns as nat)),
                ("tier"@, decimal(st.villain.tier as nat)),
            ],
        ),
        filled(sim, "ui.dossier.quarry.proofs"@, seq![("count"@, decimal(st.identity_clues@.len()))]),
        ui_text(
            sim,
            if st.discriminating_identity@.len() == 0 {
                "ui.dossier.quarry.discriminating-no"@
            } else {
                "ui.dossier.quarry.discriminating-yes"@
            },
        ),
        ui_text(
            sim,
            if st.origin_identified {
                "ui.dossier.quarry.origin-known"@
            } else {
                "ui.dossier.quarry.origin-unknown"@
            },
        ),
        ui_text(
            sim,
            if st.scheme_identified {
                "ui.dossier.quarry.scheme-known"@
            } else {
                "ui.dossier.quarry.scheme-unknown"@
            },
        ),
        ui_text(
            sim,
            if st.villain_location_known {
                "ui.dossier.quarry.location-known"@
            } else {
                "ui.dossier.quarry.location-unknown"@
            },
        ),
        ui_text(
            sim,
            if st.villain_uncovered {
                "ui.dossier.quarry.named"@
            } else if can_name(sim) {
                "ui.dossier.quarry.can-name"@
            } else {
                "ui.dossier.quarry.cannot-name"@
            },
        ),
    ]
}

/// A lead still open: discovered, neither followed nor lost.
pub open spec fn open_lead(sim: &Sim, o: OpportunitySpec) -> bool {
    sim.state.discovered@.contains(o.id) && !sim.state.resolved@.contains(o.id) && !sim.state.lost@.contains(o.id)
}

/// A lead's line: how it reads and where, then its price and whether the
/// hunter can pay it now.
pub open spec fn lead_line(sim: &Sim, o: OpportunitySpec, framing: Seq<char>) -> Seq<char> {
    let head = filled(
        sim,
        "ui.dossier.leads.entry"@,
        seq![("name"@, framing), ("place"@, sim.world.maps@[o.map.0 as int].name@)],
    );
    match spec_opportunity_cost(o.pool, o.cost, sim.state.settlement_hostile) {
        Some((p, c)) => head + filled(
            sim,
            "ui.dossier.leads.cost"@,
            seq![("cost"@, decimal(c as nat)), ("pool"@, sim.catalogue.strings.resolve(pool_name_id(p)))],
        ) + if sim.state.hunter.spec_pool(p) < c {
            ui_text(sim, "ui.dossier.leads.unaffordable"@)
        } else {
            seq![]
        },
        None => head,
    }
}

/// The open leads among the first `n` opportunities, each framed by
/// `framings` at its index.
pub open spec fn lead_lines(sim: &Sim, framings: Seq<String>, n: int) -> Seq<Seq<char>>
    decreases n,
{
    if n <= 0 {
        seq![]
    } else {
        let o = sim.world.opportunities@[n - 1];
        lead_lines(sim, framings, n - 1) + if open_lead(sim, o) {
            seq![lead_line(sim, o, framings[n - 1]@)]
        } else {
            seq![]
        }
    }
}

/// The leads section: every open lead, or a note that none are open.
pub open spec fn leads_body(sim: &Sim, framings: Seq<String>) -> Seq<Seq<char>> {
    let open = lead_lines(sim, framings, sim.world.opportunities@.len() as int);
    if open.len() == 0 {
        seq![ui_text(sim, "ui.dossier.leads.empty"@)]
    } else {
        open
    }
}

/// The counters the dossier looks for in the pack, in the order it names them.
pub open spec fn counter_items() -> Seq<Seq<char>> {
    seq!["silver-bullet"@, "cold-iron-pin"@, "binding-charm"@]
}

/// The names of the counters held, among the first `n`.
pub open spec fn counters_held(sim: &Sim, n: int) -> Seq<Seq<char>>
    decreases n,
{
    if n <= 0 {
        seq![]
    } else {
        let item = counter_items()[n - 1];
        counters_held(sim, n - 1) + if sim.state.hunter.spec_item_count(item) > 0 {
            seq![item_label(sim, item)]
        } else {
            seq![]
        }
    }
}

/// The reagent that quenches this case's counter.
pub open spec fn case_reagent(sim: &Sim) -> Seq<char> {
    sim.catalogue.origins.lookup(sim.world.villain.origin@)->0.counter_reagent@
}

/// The preparations section: the reagent, the counters in the pack, and
/// the church.
pub open spec fn prep_lines(sim: &Sim) -> Seq<Seq<char>> {
    let reagent = if sim.state.origin_identified {
        seq![
            filled(sim, "ui.dossier.prep.reagent-known"@, seq![("reagent"@, item_label(sim, case_reagent(sim)))]),
            ui_text(
                sim,
                if sim.state.hunter.spec_item_count(case_reagent(sim)) > 0 {
                    "ui.dossier.prep.reagent-held"@
                } else {
                    "ui.dossier.prep.reagent-wanted"@
                },
            ),
        ]
    } else {
        seq![ui_text(sim, "ui.dossier.prep.reagent-unknown"@)]
    };
    let held = counters_held(sim, 3);
    let holding = if held.len() == 0 {
        ui_text(sim, "ui.dossier.prep.nothing"@)
    } else {
        filled(sim, "ui.dossier.prep.holding"@, seq![("items"@, joined_with(held, ", "@))])
    };
    reagent + seq![
        holding,
        ui_text(
            sim,
            if sim.state.church_consecrated {
                "ui.dossier.prep.consecrated"@
            } else {
                "ui.dossier.prep.unconsecrated"@
            },
        ),
    ]
}

/// The pack line for the `i`-th item carried, when the catalogue knows it.
pub open spec fn pack_lines(sim: &Sim, n: int) -> Seq<Seq<char>>
    decreases n,
{
    if n <= 0 {
        seq![]
    } else {
        let inv = sim.state.hunter.inventory;
        let item = inv.keys()[n - 1];
        let count = inv.values()[n - 1];
        pack_lines(sim, n - 1) + match sim.catalogue.items.lookup(item) {
            Some(def) => {
                let name = sim.catalogue.strings.resolve(def.name.0@);
                seq![
                    filled(
                        sim,
                        "ui.dossier.pack.entry"@,
                        seq![
                            ("item"@, if count > 1 {
                                name + " x"@ + decimal(count as nat)
                            } else {
                                name
                            }),
                            ("what"@, sim.catalogue.strings.resolve(def.description.0@)),
                        ],
                    ),
                ]
            },
            None => seq![],
        }
    }
}

pub open spec fn pack_body(sim: &Sim) -> Seq<Seq<char>> {
    let known = pack_lines(sim, sim.state.hunter.inventory.len_spec() as int);
    if known.len() == 0 {
        seq![ui_text(sim, "ui.dossier.pack.empty"@)]
    } else {
        known
    }
}

/// The dossier: the quarry, the leads, the preparations and the pack.
pub open spec fn dossier(sim: &Sim, framings: Seq<String>) -> Seq<(Seq<char>, Seq<char>)> {
    seq![
        (ui_text(sim, "ui.dossier.quarry.title"@), lines(quarry_lines(sim))),
        (ui_text(sim, "ui.dossier.leads.title"@), lines(leads_body(sim, framings))),
        (ui_text(sim, "ui.dossier.prep.title"@), lines(prep_lines(sim))),
        (ui_text(sim, "ui.dossier.pack.title"@), lines(pack_body(sim))),
    ]
}

/// What the dossier needs to be read without a missing piece.
pub open spec fn dossier_readable(sim: &Sim, framings: Seq<String>) -> bool {
    &&& framings.len() == sim.world.opportunities@.len()
    &&& sim.catalogue.origins.contains(sim.world.villain.origin@)
    &&& forall|k: int|
        0 <= k < sim.world.opportunities@.len() ==> ((#[trigger] sim.world.opportunities@[k]).map.0 as int)
            < sim.world.maps@.len() && (sim.state.settlement_hostile && sim.world.opportunities@[k].pool == Some(
            PoolKind::Social,
        ) ==> sim.world.opportunities@[k].cost < u8::MAX)
}

fn ui_line(sim: &Sim, id: &str) -> (r: String)
    ensures
        r@ == ui_text(sim, id@),
{
    text_owned(sim.catalogue.strings.ui(id))
}

fn number(n: u128) -> (r: String)
    ensures
        r@ == decimal(n as nat),
{
    let mut s = String::new();
    push_number(&mut s, n);
    s
}

fn quarry_text(sim: &Sim) -> (r: String)
    ensures
        r@ == lines(quarry_lines(sim)),
{
    let st = &sim.state;
    let total = sim.catalogue.balance.clock.travel_turns;
    let day = if st.clock <= total {
        st.clock
    } else {
        total
    };
    let d = number(day as u128);
    let t = number(total as u128);
    let tier = number(st.villain.tier as u128);
    let args = [("day", d.as_str()), ("total", t.as_str()), ("tier", tier.as_str())];
    let mut parts: Vec<String> = Vec::new();
    parts.push(sim.catalogue.strings.fill(&StringId(text_owned("ui.dossier.clock")), &args));
    let count = number(st.identity_clues.len() as u128);
    let count_args = [("count", count.as_str())];
    parts.push(sim.catalogue.strings.fill(&StringId(text_owned("ui.dossier.quarry.proofs")), &count_args));
    parts.push(
        ui_line(
            sim,
            if st.discriminating_identity.len() == 0 {
                "ui.dossier.quarry.discriminating-no"
            } else {
                "ui.dossier.quarry.discriminating-yes"
            },
        ),
    );
    parts.push(
        ui_line(
            sim,
            if st.origin_identified {
                "ui.dossier.quarry.origin-known"
            } else {
                "ui.dossier.quarry.origin-unknown"
            },
        ),
    );
    parts.push(
        ui_line(
            sim,
            if st.scheme_identified {
                "ui.dossier.quarry.scheme-known"
            } else {
                "ui.dossier.quarry.scheme-unknown"
            },
        ),
    );
    parts.push(
        ui_line(
            sim,
            if st.villain_location_known {
                "ui.dossier.quarry.location-known"
            } else {
                "ui.dossier.quarry.location-unknown"
            },
        ),
    );
    let corroboration = st.corroboration(&sim.catalogue);
    let naming = if st.villain_uncovered {
        "ui.dossier.quarry.named"
    } else if corroboration.corroborated() {
        "ui.dossier.quarry.can-name"
    } else {
        "ui.dossier.quarry.cannot-name"
    };
    parts.push(ui_line(sim, naming));
    proof {
        assert(args_view(args@) =~= seq![
            ("day"@, decimal(shown_day(sim))),
            ("total"@, decimal(total as nat)),
            ("tier"@, decimal(st.villain.tier as nat)),
        ]);
        assert(args_view(count_args@) =~= seq![("count"@, decimal(st.identity_clues@.len()))]);
        assert(texts_of(parts@) =~= quarry_lines(sim));
    }
    join_parts(&parts, "\n")
}

fn leads_text(sim: &Sim, framings: &Vec<String>) -> (r: String)
    requires
        dossier_readable(sim, framings@),
    ensures
        r@ == lines(leads_body(sim, framings@)),
{
    let opps = &sim.world.opportunities;
    let mut parts: Vec<String> = Vec::new();
    let mut k: usize = 0;
    while k < opps.len()
        invariant
            k <= opps@.len(),
            *opps == sim.world.opportunities,
            dossier_readable(sim, framings@),
            texts_of(parts@) == lead_lines(sim, framings@, k as int),
        decreases opps@.len() - k,
    {
        let o = &opps[k];
        let ghost before = texts_of(parts@);
        if opportunity_listed(&sim.state.discovered, o.id) && !opportunity_listed(&sim.state.resolved, o.id)
            && !opportunity_listed(&sim.state.lost, o.id) {
            assert((o.map.0 as int) < sim.world.maps@.len()) by {
                assert(sim.world.opportunities@[k as int] == *o);
            }
            let place = &sim.world.map(o.map).name;
            let args = [("name", framings[k].as_str()), ("place", place.as_str())];
            let mut line = sim.catalogue.strings.fill(&StringId(text_owned("ui.dossier.leads.entry")), &args);
            proof {
                assert(args_view(args@) =~= seq![("name"@, framings@[k as int]@), ("place"@, place@)]);
            }
            let ghost head = line@;
            match opportunity_cost(o.pool, o.cost, sim.state.settlement_hostile) {
                Some((pool, cost)) => {
                    let c = number(cost as u128);
                    let cost_args = [("cost", c.as_str()), ("pool", pool_name(&sim.catalogue.strings, pool))];
                    let note = sim.catalogue.strings.fill(&StringId(text_owned("ui.dossier.leads.cost")), &cost_args);
                    proof {
                        assert(args_view(cost_args@) =~= seq![
                            ("cost"@, decimal(cost as nat)),
                            ("pool"@, sim.catalogue.strings.resolve(pool_name_id(pool))),
                        ]);
                    }
                    push_text(&mut line, note.as_str());
                    if pool_points(sim, pool) < cost as u16 {
                        push_text(&mut line, sim.catalogue.strings.ui("ui.dossier.leads.unaffordable"));
                    } else {
                        proof {
                            assert(line@ =~= line@ + Seq::<char>::empty());
                        }
                    }
                    proof {
                        assert(line@ =~= lead_line(sim, *o, framings@[k as int]@));
                    }
                },
                None => {},
            }
            parts.push(line);
            proof {
                assert(texts_of(parts@) =~= before.push(lead_line(sim, *o, framings@[k as int]@)));
            }
        } else {
            proof {
                assert(before + seq![] =~= before);
            }
        }
        k = k + 1;
    }
    if parts.len() == 0 {
        parts.push(ui_line(sim, "ui.dossier.leads.empty"));
        proof {
            assert(texts_of(parts@) =~= leads_body(sim, framings@));
        }
    }
    join_parts(&parts, "\n")
}

fn prep_text(sim: &Sim) -> (r: String)
    requires
        sim.catalogue.origins.contains(sim.world.villain.origin@),
    ensures
        r@ == lines(prep_lines(sim)),
{
    let mut parts: Vec<String> = Vec::new();
    let origin = sim.catalogue.origins.get(sim.world.villain.origin.as_str());
    let ghost want = case_reagent(sim);
    match origin {
        Some(def) => {
            let reagent = def.counter_reagent.as_str();
            assert(reagent@ == want);
            if sim.state.origin_identified {
                let name = match sim.catalogue.items.get(reagent) {
                    Some(item) => text_owned(sim.catalogue.strings.get(&item.name)),
                    None => text_owned(reagent),
                };
                let args = [("reagent", name.as_str())];
                parts.push(sim.catalogue.strings.fill(&StringId(text_owned("ui.dossier.prep.reagent-known")), &args));
                proof {
                    assert(args_view(args@) =~= seq![("reagent"@, item_label(sim, want))]);
                }
                parts.push(
                    ui_line(
                        sim,
                        if sim.state.hunter.item_count(reagent) > 0 {
                            "ui.dossier.prep.reagent-held"
                        } else {
                            "ui.dossier.prep.reagent-wanted"
                        },
                    ),
                );
            } else {
                parts.push(ui_line(sim, "ui.dossier.prep.reagent-unknown"));
            }
        },
        None => {},
    }
    let ghost head = texts_of(parts@);
    let counters = ["silver-bullet", "cold-iron-pin", "binding-charm"];
    let mut held: Vec<String> = Vec::new();
    let mut k: usize = 0;
    while k < 3
        invariant
            k <= 3,
            counters@.len() == 3,
            forall|i: int| 0 <= i < 3 ==> (#[trigger] counters@[i])@ == counter_items()[i],
            texts_of(held@) == counters_held(sim, k as int),
        decreases 3 - k,
    {
        let item = counters[k];
        let ghost before = texts_of(held@);
        if sim.state.hunter.item_count(item) > 0 {
            let name = match sim.catalogue.items.get(item) {
                Some(def) => text_owned(sim.catalogue.strings.get(&def.name)),
                None => text_owned(item),
            };
            held.push(name);
            proof {
                assert(texts_of(held@) =~= before.push(item_label(sim, counter_items()[k as int])));
            }
        } else {
            proof {
                assert(before + seq![] =~= before);
            }
        }
        k = k + 1;
    }
    if held.len() == 0 {
        parts.push(ui_line(sim, "ui.dossier.prep.nothing"));
    } else {
        let list = join_parts(&held, ", ");
        let args = [("items", list.as_str())];
        parts.push(sim.catalogue.strings.fill(&StringId(text_owned("ui.dossier.prep.holding")), &args));
        proof {
            assert(args_view(args@) =~= seq![("items"@, joined_with(counters_held(sim, 3), ", "@))]);
        }
    }
    parts.push(
        ui_line(
            sim,
            if sim.state.church_consecrated {
                "ui.dossier.prep.consecrated"
            } else {
                "ui.dossier.prep.unconsecrated"
            },
        ),
    );
    proof {
        assert(texts_of(parts@) =~= prep_lines(sim));
    }
    join_parts(&parts, "\n")
}

fn pack_text(sim: &Sim) -> (r: String)
    ensures
        r@ == lines(pack_body(sim)),
{
    let inv = &sim.state.hunter.inventory;
    let mut parts: Vec<String> = Vec::new();
    let mut k: usize = 0;
    while k < inv.len()
        invariant
            k <= inv.len_spec(),
            *inv == sim.state.hunter.inventory,
            texts_of(parts@) == pack_lines(sim, k as int),
        decreases inv.len_spec() - k,
    {
        let (item, count) = inv.entry(k);
        let ghost before = texts_of(parts@);
        match sim.catalogue.items.get(item.as_str()) {
            Some(def) => {
                let mut name = text_owned(sim.catalogue.strings.get(&def.name));
                if *count > 1 {
                    push_text(&mut name, " x");
                    push_number(&mut name, *count as u128);
                }
                let args = [("item", name.as_str()), ("what", sim.catalogue.strings.get(&def.description))];
                let line = sim.catalogue.strings.fill(&StringId(text_owned("ui.dossier.pack.entry")), &args);
                proof {
                    let n = sim.catalogue.strings.resolve(def.name.0@);
                    assert(args_view(args@) =~= seq![
                        ("item"@, if *count > 1 {
                            n + " x"@ + decimal(*count as nat)
                        } else {
                            n
                        }),
                        ("what"@, sim.catalogue.strings.resolve(def.description.0@)),
                    ]);
                }
                parts.push(line);
                proof {
                    assert(texts_of(parts@) =~= pack_lines(sim, k + 1));
                }
            },
            None => {
                proof {
                    assert(texts_of(parts@) =~= pack_lines(sim, k + 1));
                }
            },
        }
        k = k + 1;
    }
    if parts.len() == 0 {
        parts.push(ui_line(sim, "ui.dossier.pack.empty"));
        proof {
            assert(texts_of(parts@) =~= pack_body(sim));
        }
    }
    join_parts(&parts, "\n")
}

/// The dossier screen: the quarry, the leads outstanding, the preparations
/// and the pack. Each open opportunity reads as a lead by its framing at
/// the same index of `framings`.
pub fn dossier_entries(sim: &Sim, framings: &Vec<String>) -> (r: Vec<(String, String)>)
    requires
        dossier_readable(sim, framings@),
    ensures
        r@.map_values(|e: (String, String)| (e.0@, e.1@)) == dossier(sim, framings@),
{
    let mut entries: Vec<(String, String)> = Vec::new();
    entries.push((ui_line(sim, "ui.dossier.quarry.title"), quarry_text(sim)));
    entries.push((ui_line(sim, "ui.dossier.leads.title"), leads_text(sim, framings)));
    entries.push((ui_line(sim, "ui.dossier.prep.title"), prep_text(sim)));
    entries.push((ui_line(sim, "ui.dossier.pack.title"), pack_text(sim)));
    proof {
        assert(entries@.map_values(|e: (String, String)| (e.0@, e.1@)) =~= dossier(sim, framings@));
    }
    entries
}

} // verus!
