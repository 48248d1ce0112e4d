//! The case report shown when a run ends: how it went, what the quarry
//! was, the clues left unfound, what was carried into the end, and the
//! routes the world was certified with, marked against what was done.
use vstd::prelude::*;

use crate::client::{join_parts, joined_with, ui_text};
use crate::dossier::texts_of;
use crate::frame::{filled, item_label};
use crate::sim::Sim;
use crate::state::Outcome;
use crate::strings::{args_view, StringId};
use crate::text::{decimal, push_number, push_text, text_owned};
use crate::view::{opportunity_listed, CaseReportView};
use crate::world::{CertifiedRoute, OpportunityGrant, OpportunitySpec, RouteStep};

verus! {

/// How the run stands: won, lost, or still going.
pub open spec fn outcome_text(sim: &Sim, outcome: Option<Outcome>) -> Seq<char> {
    ui_text(
        sim,
        match outcome {
            Some(Outcome::Victory) => "ui.outcome.victory"@,
            Some(Outcome::Defeat) => "ui.outcome.defeat"@,
            None => "ui.outcome.ongoing"@,
        },
    )
}

/// A clue the hunter never took up: one that named, or placed, the quarry.
pub open spec fn hidden_clue(sim: &Sim, o: OpportunitySpec) -> bool {
    !sim.state.resolved@.contains(o.id) && (o.grants is IdentityClue || o.grants is LocationClue)
}

/// The hidden clues among the first `n` opportunities, each with what it
/// would have shown.
pub open spec fn hidden_upto(sim: &Sim, n: int) -> Seq<Seq<char>>
    decreases n,
{
    if n <= 0 {
        seq![]
    } else {
        let o = sim.world.opportunities@[n - 1];
        hidden_upto(sim, n - 1) + if hidden_clue(sim, o) {
            seq![o.name@ + " \u{2014} "@ + o.reveal@]
        } else {
            seq![]
        }
    }
}

/// A route step, marked taken, missed, or neither.
pub open spec fn step_line(sim: &Sim, step: RouteStep) -> Seq<char> {
    let mark = match step.opportunity {
        Some(id) => if sim.state.resolved@.contains(id) {
            ui_text(sim, "ui.report.step-taken"@)
        } else {
            ui_text(sim, "ui.report.step-missed"@)
        },
        None => ui_text(sim, "ui.report.step-neutral"@),
    };
    filled(
        sim,
        "ui.report.route-step"@,
        seq![("mark"@, mark), ("turn"@, decimal(step.turn as nat)), ("what"@, step.description@)],
    )
}

/// A certified route: its label, when it is ready and how viable, then its
/// steps a line each.
pub open spec fn route_text(sim: &Sim, route: CertifiedRoute) -> Seq<char> {
    route.label@ + " (ready by day "@ + decimal(route.ready_by_turn as nat) + ", "@ + decimal(
        route.viability_permille as nat,
    ) + "\u{2030} viable)\n"@ + joined_with(route.steps@.map_values(|s: RouteStep| step_line(sim, s)), "\n"@)
}

/// What the hunter carried into the end.
pub open spec fn preparation_lines(sim: &Sim) -> Seq<Seq<char>> {
    let origin = sim.catalogue.origins.lookup(sim.world.villain.origin@)->0;
    let weakness = sim.spec_villain().weakness_item@;
    seq![
        filled(sim, "ui.report.reagent"@, seq![("reagent"@, item_label(sim, origin.counter_reagent@))]),
        ui_text(
            sim,
            if sim.state.origin_identified {
                "ui.report.origin-known"@
            } else {
                "ui.report.origin-unknown"@
            },
        ),
        filled(
            sim,
            if sim.state.hunter.spec_item_count(weakness) > 0 {
                "ui.report.weakness-held"@
            } else {
                "ui.report.weakness-missing"@
            },
            seq![("item"@, item_label(sim, weakness))],
        ),
        ui_text(
            sim,
            if sim.state.church_consecrated {
                "ui.report.consecrated"@
            } else {
                "ui.report.unconsecrated"@
            },
        ),
    ]
}

/// `r` is the case report for the run, with `outcome` and `share_code` as
/// given.
pub open spec fn report_shown(sim: &Sim, outcome: Option<Outcome>, share_code: Seq<char>, r: CaseReportView) -> bool {
    let origin = sim.catalogue.origins.lookup(sim.world.villain.origin@)->0;
    let scheme = sim.catalogue.schemes.lookup(sim.world.villain.scheme@)->0;
    let strings = sim.catalogue.strings;
    &&& r.outcome@ == outcome_text(sim, outcome)
    &&& r.villain@ == filled(
        sim,
        "ui.report.villain"@,
        seq![("name"@, strings.resolve(sim.spec_villain().name.0@)), ("title"@, sim.world.villain.title@)],
    )
    &&& r.origin@ == filled(
        sim,
        "ui.report.axis"@,
        seq![("name"@, strings.resolve(origin.name.0@)), ("description"@, strings.resolve(origin.description.0@))],
    )
    &&& r.scheme@ == filled(
        sim,
        "ui.report.axis"@,
        seq![("name"@, strings.resolve(scheme.name.0@)), ("description"@, strings.resolve(scheme.description.0@))],
    )
    &&& texts_of(r.hidden_clues@) == hidden_upto(sim, sim.world.opportunities@.len() as int)
    &&& r.tier@ == filled(sim, "ui.report.tier"@, seq![("tier"@, decimal(sim.state.villain.tier as nat))])
    &&& texts_of(r.preparations@) == preparation_lines(sim)
    &&& texts_of(r.routes@) == sim.world.certified_routes@.map_values(|rt: CertifiedRoute| route_text(sim, rt))
    &&& r.share_code@ == share_code
}

/// What the report needs to be read without a missing piece.
pub open spec fn report_readable(sim: &Sim) -> bool {
    &&& sim.has_villain_def()
    &&& sim.catalogue.origins.contains(sim.world.villain.origin@)
    &&& sim.catalogue.schemes.contains(sim.world.villain.scheme@)
}

fn ui_line(sim: &Sim, id: &str) -> (r: String)
    ensures
        r@ == ui_text(sim, id@),
{
    text_owned(sim.catalogue.strings.ui(id))
}

fn name_of(sim: &Sim, item: &str) -> (r: String)
    ensures
        r@ == item_label(sim, item@),
{
    match sim.catalogue.items.get(item) {
        Some(def) => text_owned(sim.catalogue.strings.get(&def.name)),
        None => text_owned(item),
    }
}

fn number(n: u128) -> (r: String)
    ensures
        r@ == decimal(n as nat),
{
    let mut s = String::new();
    push_number(&mut s, n);
    s
}

fn hidden_clues(sim: &Sim) -> (r: Vec<String>)
    ensures
        texts_of(r@) == hidden_upto(sim, sim.world.opportunities@.len() as int),
{
    let opps = &sim.world.opportunities;
    let mut out: Vec<String> = Vec::new();
    let mut k: usize = 0;
    while k < opps.len()
        invariant
            k <= opps@.len(),
            *opps == sim.world.opportunities,
            texts_of(out@) == hidden_upto(sim, k as int),
        decreases opps@.len() - k,
    {
        let o = &opps[k];
        let ghost before = texts_of(out@);
        let telling = match o.grants {
            OpportunityGrant::IdentityClue => true,
            OpportunityGrant::LocationClue => true,
            _ => false,
        };
        if telling && !opportunity_listed(&sim.state.resolved, o.id) {
            let mut line = text_owned(o.name.as_str());
            push_text(&mut line, " \u{2014} ");
            push_text(&mut line, o.reveal.as_str());
            out.push(line);
            proof {
                assert(texts_of(out@) =~= before.push(o.name@ + " \u{2014} "@ + o.reveal@));
            }
        } else {
            proof {
                assert(before + seq![] =~= before);
            }
        }
        k = k + 1;
    }
    out
}

fn route_line(sim: &Sim, route: &CertifiedRoute) -> (r: String)
    ensures
        r@ == route_text(sim, *route),
{
    let mut steps: Vec<String> = Vec::new();
    let mut k: usize = 0;
    while k < route.steps.len()
        invariant
            k <= route.steps@.len(),
            texts_of(steps@) == route.steps@.take(k as int).map_values(|s: RouteStep| step_line(sim, s)),
        decreases route.steps@.len() - k,
    {
        let step = &route.steps[k];
        let mark = match step.opportunity {
            Some(id) => if opportunity_listed(&sim.state.resolved, id) {
                ui_line(sim, "ui.report.step-taken")
            } else {
                ui_line(sim, "ui.report.step-missed")
            },
            None => ui_line(sim, "ui.report.step-neutral"),
        };
        let turn = number(step.turn as u128);
        let args = [("mark", mark.as_str()), ("turn", turn.as_str()), ("what", step.description.as_str())];
        let line = sim.catalogue.strings.fill(&StringId(text_owned("ui.report.route-step")), &args);
        proof {
            assert(args_view(args@) =~= seq![
                ("mark"@, mark@),
                ("turn"@, decimal(step.turn as nat)),
                ("what"@, step.description@),
            ]);
        }
        let ghost before = texts_of(steps@);
        steps.push(line);
        proof {
            assert(texts_of(steps@) =~= before.push(step_line(sim, *step)));
            assert(route.steps@.take(k + 1) =~= route.steps@.take(k as int).push(*step));
        }
        k = k + 1;
        proof {
            assert(texts_of(steps@) =~= route.steps@.take(k as int).map_values(|s: RouteStep| step_line(sim, s)));
        }
    }
    proof {
        assert(route.steps@.take(k as int) =~= route.steps@);
    }
    let mut out = text_owned(route.label.as_str());
    push_text(&mut out, " (ready by day ");
    push_number(&mut out, route.ready_by_turn as u128);
    push_text(&mut out, ", ");
    push_number(&mut out, route.viability_permille as u128);
    push_text(&mut out, "\u{2030} viable)\n");
    let body = join_parts(&steps, "\n");
    push_text(&mut out, body.as_str());
    proof {
        assert(out@ =~= route_text(sim, *route));
    }
    out
}

/// The case report for the run, with how it ended and its share code as
/// the caller has them.
pub fn case_report(sim: &Sim, outcome: Option<Outcome>, share_code: String) -> (r: CaseReportView)
    requires
        report_readable(sim),
    ensures
        report_shown(sim, outcome, share_code@, r),
{
    let strings = &sim.catalogue.strings;
    let outcome_line = match outcome {
        Some(Outcome::Victory) => ui_line(sim, "ui.outcome.victory"),
        Some(Outcome::Defeat) => ui_line(sim, "ui.outcome.defeat"),
        None => ui_line(sim, "ui.outcome.ongoing"),
    };
    let villain_def = sim.villain_def();
    let origin = sim.catalogue.origins.get(sim.world.villain.origin.as_str()).unwrap();
    let scheme = sim.catalogue.schemes.get(sim.world.villain.scheme.as_str()).unwrap();
    let villain_args = [("name", strings.get(&villain_def.name)), ("title", sim.world.villain.title.as_str())];
    let villain = strings.fill(&StringId(text_owned("ui.report.villain")), &villain_args);
    let origin_args = [("name", strings.get(&origin.name)), ("description", strings.get(&origin.description))];
    let origin_line = strings.fill(&StringId(text_owned("ui.report.axis")), &origin_args);
    let scheme_args = [("name", strings.get(&scheme.name)), ("description", strings.get(&scheme.description))];
    let scheme_line = strings.fill(&StringId(text_owned("ui.report.axis")), &scheme_args);
    let tier_text = number(sim.state.villain.tier as u128);
    let tier_args = [("tier", tier_text.as_str())];
    let tier = strings.fill(&StringId(text_owned("ui.report.tier")), &tier_args);
    let mut preparations: Vec<String> = Vec::new();
    let reagent = name_of(sim, origin.counter_reagent.as_str());
    let reagent_args = [("reagent", reagent.as_str())];
    preparations.push(strings.fill(&StringId(text_owned("ui.report.reagent")), &reagent_args));
    preparations.push(
        ui_line(
            sim,
            if sim.state.origin_identified {
                "ui.report.origin-known"
            } else {
                "ui.report.origin-unknown"
            },
        ),
    );
    let weakness = villain_def.weakness_item.as_str();
    let weakness_name = name_of(sim, weakness);
    let weakness_args = [("item", weakness_name.as_str())];
    let weakness_id = if sim.state.hunter.item_count(weakness) > 0 {
        "ui.report.weakness-held"
    } else {
        "ui.report.weakness-missing"
    };
    preparations.push(strings.fill(&StringId(text_owned(weakness_id)), &weakness_args));
    preparations.push(
        ui_line(
            sim,
            if sim.state.church_consecrated {
                "ui.report.consecrated"
            } else {
                "ui.report.unconsecrated"
            },
        ),
    );
    let mut routes: Vec<String> = Vec::new();
    let certified = &sim.world.certified_routes;
    let mut k: usize = 0;
    while k < certified.len()
        invariant
            k <= certified@.len(),
            *certified == sim.world.certified_routes,
            texts_of(routes@) == certified@.take(k as int).map_values(|rt: CertifiedRoute| route_text(sim, rt)),
        decreases certified@.len() - k,
    {
        let ghost before = texts_of(routes@);
        routes.push(route_line(sim, &certified[k]));
        proof {
            assert(texts_of(routes@) =~= before.push(route_text(sim, certified@[k as int])));
            assert(certified@.take(k + 1) =~= certified@.take(k as int).push(certified@[k as int]));
        }
        k = k + 1;
        proof {
            assert(texts_of(routes@) =~= certified@.take(k as int).map_values(
                |rt: CertifiedRoute| route_text(sim, rt),
            ));
        }
    }
    proof {
        assert(certified@.take(k as int) =~= certified@);
        assert(args_view(villain_args@) =~= seq![
            ("name"@, strings.resolve(sim.spec_villain().name.0@)),
            ("title"@, sim.world.villain.title@),
        ]);
        assert(args_view(origin_args@) =~= seq![
            ("name"@, strings.resolve(origin.name.0@)),
            ("description"@, strings.resolve(origin.description.0@)),
        ]);
        assert(args_view(scheme_args@) =~= seq![
            ("name"@, strings.resolve(scheme.name.0@)),
            ("description"@, strings.resolve(scheme.description.0@)),
        ]);
        assert(args_view(tier_args@) =~= seq![("tier"@, decimal(sim.state.villain.tier as nat))]);
        assert(args_view(reagent_args@) =~= seq![("reagent"@, item_label(sim, origin.counter_reagent@))]);
        assert(args_view(weakness_args@) =~= seq![("item"@, item_label(sim, weakness@))]);
        assert(texts_of(preparations@) =~= preparation_lines(sim));
    }
    CaseReportView {
        outcome: outcome_line,
        villain,
        origin: origin_line,
        scheme: scheme_line,
        hidden_clues: hidden_clues(sim),
        tier,
        preparations,
        routes,
        share_code,
    }
}

} // verus!
