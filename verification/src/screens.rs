//! The frame viewmodel for every screen: what both clients draw, built in
//! one place so that neither computes anything of its own.
use vstd::prelude::*;

use crate::catalogue::Catalogue;
use crate::client::{joined_with, join_parts, Modal, Screen};
use crate::dossier::{dossier, dossier_entries, dossier_readable};
use crate::frame::{frame_readable, run_shown, run_view};
use crate::report::{case_report, report_readable, report_shown};
use crate::state::Outcome;
use crate::geometry::Point;
use crate::input::{key_label, spec_label_key, ControlScheme, Intent, Key};
use crate::records::{
    entry_texts, npcs_indexed, record_entries, record_upto, region_entries, region_entry, relationship_entries,
    relationships, roads_readable,
};
use crate::schema::{GrimoireEntry, HunterDef, KeyBinding, SignatureDef};
use crate::sim::Sim;
use crate::strings::{args_view, fill_all, StringId, StringTable};
use crate::text::{decimal, push_number, push_text, text_owned};
use crate::view::{empty_run_view, CaseReportView, PanelLabels, RunView, ScreenView, ViewModel};

verus! {

/// What the key hint beside `intent` reads: its key, or nothing when no key
/// is bound to it.
pub open spec fn key_hint_text(scheme: ControlScheme, intent: Intent) -> Seq<char> {
    match spec_label_key(scheme, intent) {
        Some(Key::Tab) => "Tab"@,
        Some(Key::Char(c)) => seq![c],
        _ => seq![],
    }
}

fn key_hint(scheme: ControlScheme, intent: Intent) -> (r: String)
    ensures
        r@ == key_hint_text(scheme, intent),
{
    match key_label(scheme, &intent) {
        Some(s) => s,
        None => String::new(),
    }
}

/// The splash's keys column for one binding: its keys text, filled with how
/// the scheme in force steers and with the keys it binds.
pub open spec fn binding_row(strings: StringTable, scheme: ControlScheme, b: KeyBinding) -> (Seq<char>, Seq<char>) {
    let steer = match scheme {
        ControlScheme::Numpad => "ui.controls.numpad.steer"@,
        ControlScheme::Roguelike => "ui.controls.roguelike.steer"@,
    };
    (
        fill_all(
            strings.resolve(b.keys.0@),
            seq![
                ("steer"@, strings.resolve(steer)),
                ("silver"@, key_hint_text(scheme, Intent::FireSilver)),
                ("killing"@, key_hint_text(scheme, Intent::KillingBlow)),
                ("log"@, key_hint_text(scheme, Intent::EventLog)),
            ],
        ),
        strings.resolve(b.action.0@),
    )
}

/// The splash's menu: a new run, a seed, a share code, and the control
/// scheme in force.
pub open spec fn splash_options(strings: StringTable, scheme: ControlScheme) -> Seq<Seq<char>> {
    let label = match scheme {
        ControlScheme::Numpad => "ui.controls.numpad"@,
        ControlScheme::Roguelike => "ui.controls.roguelike"@,
    };
    seq![
        strings.resolve("ui.splash.option.new-run"@),
        strings.resolve("ui.splash.option.enter-seed"@),
        strings.resolve("ui.splash.option.paste-code"@),
        fill_all(strings.resolve("ui.splash.option.controls"@), seq![("scheme"@, strings.resolve(label))]),
    ]
}

/// A hunter on the selection screen: name, then title, pools and
/// signatures, a line each.
pub open spec fn roster_entry(strings: StringTable, h: HunterDef) -> (Seq<char>, Seq<char>) {
    let pools = fill_all(
        strings.resolve("ui.hunter-select.pools"@),
        seq![
            ("health"@, decimal(h.health as nat)),
            ("lore"@, decimal(h.lore_cap as nat)),
            ("social"@, decimal(h.social_cap as nat)),
            ("mystic"@, decimal(h.mystic_cap as nat)),
            ("physical"@, decimal(h.physical_cap as nat)),
        ],
    );
    let signatures = joined_with(h.signatures@.map_values(|s: SignatureDef| strings.resolve(s.name.0@)), ", "@);
    (strings.resolve(h.name.0@), strings.resolve(h.title.0@) + "\n"@ + pools + "\n"@ + signatures)
}

/// A list's selection, held to its last entry.
pub open spec fn clamped(selected: usize, len: nat) -> Option<usize> {
    let last = if len == 0 {
        0
    } else {
        len - 1
    };
    Some(
        if selected <= last {
            selected
        } else {
            last as usize
        },
    )
}

/// `v` is a list screen titled by `title_id`, showing `entries`, with the
/// selection held to its last entry.
pub open spec fn list_shown(
    strings: StringTable,
    title_id: Seq<char>,
    entries: Seq<(Seq<char>, Seq<char>)>,
    selected: usize,
    v: ScreenView,
) -> bool {
    v matches ScreenView::List { title, entries: shown, selected: sel } && title@ == strings.resolve(title_id)
        && entry_texts(shown@) == entries && sel == clamped(selected, entries.len())
}

/// `v` is a text entry screen with the given title, prompt and state.
pub open spec fn entry_shown(
    strings: StringTable,
    title_id: Seq<char>,
    prompt_id: Seq<char>,
    input: String,
    error: Option<String>,
    v: ScreenView,
) -> bool {
    v matches ScreenView::TextEntry { title, prompt, input: i, error: e } && title@ == strings.resolve(title_id)
        && prompt@ == strings.resolve(prompt_id) && i@ == input@ && match (e, error) {
        (Some(a), Some(b)) => a@ == b@,
        (None, None) => true,
        _ => false,
    }
}

/// Every panel label, resolved through the string table.
pub open spec fn labels_resolved(strings: StringTable, r: PanelLabels) -> bool {
    &&& r.hunter@ == strings.resolve("ui.panel.hunter"@)
    &&& r.actions@ == strings.resolve("ui.panel.actions"@)
    &&& r.record@ == strings.resolve("ui.panel.record"@)
    &&& r.detail@ == strings.resolve("ui.panel.detail"@)
    &&& r.case_report@ == strings.resolve("ui.panel.case-report"@)
    &&& r.pack@ == strings.resolve("ui.panel.pack"@)
    &&& r.in_sight@ == strings.resolve("ui.panel.in-sight"@)
    &&& r.in_sight_empty@ == strings.resolve("ui.panel.in-sight-empty"@)
    &&& r.sight_hostile@ == strings.resolve("ui.sight.hostile"@)
    &&& r.sight_villager@ == strings.resolve("ui.sight.villager"@)
    &&& r.legend@ == strings.resolve("ui.legend.title"@)
    &&& r.preparations@ == strings.resolve("ui.report.preparations-title"@)
    &&& r.look_cursor@ == strings.resolve("ui.panel.look-cursor"@)
    &&& r.look_hover@ == strings.resolve("ui.panel.look-hover"@)
    &&& r.look_plain@ == strings.resolve("ui.panel.look"@)
    &&& r.look_hint@ == strings.resolve("ui.hint.look"@)
    &&& r.direction_hint@ == strings.resolve("ui.hint.direction"@)
    &&& r.list_hint@ == strings.resolve("ui.hint.list-nav"@)
    &&& r.report_villain@ == strings.resolve("ui.report.heading.villain"@)
    &&& r.report_origin@ == strings.resolve("ui.report.heading.origin"@)
    &&& r.report_scheme@ == strings.resolve("ui.report.heading.scheme"@)
    &&& r.case_report_footer@ == strings.resolve("ui.hint.case-report-footer"@)
}

/// What a run in progress offers the frame: the simulation and its seed,
/// the modal in progress, the hint of the moment and where the player is
/// looking.
pub struct RunFrame<'a> {
    pub sim: &'a Sim,
    pub seed: u64,
    pub modal: Option<Modal>,
    pub hint: Option<String>,
    pub look: Option<Point>,
    pub resume: Option<Point>,
    pub looking: bool,
    /// How each opportunity reads as a lead in the dossier, by index.
    pub framings: Vec<String>,
    /// How the run ended, if it has.
    pub outcome: Option<Outcome>,
    /// The code that replays the run.
    pub share_code: String,
}

/// The run in progress can be drawn without a missing piece.
pub open spec fn run_readable(run: RunFrame) -> bool {
    &&& frame_readable(run.sim, run.look)
    &&& npcs_indexed(run.sim)
    &&& roads_readable(run.sim)
    &&& dossier_readable(run.sim, run.framings@)
    &&& report_readable(run.sim)
}

/// The texts of `v`.
pub open spec fn string_texts(v: Seq<String>) -> Seq<Seq<char>> {
    v.map_values(|s: String| s@)
}

/// `v` is the splash: the title, the introduction, the keys and what they
/// do, and the menu.
pub open spec fn splash_shown(cat: &Catalogue, scheme: ControlScheme, selected: usize, v: ScreenView) -> bool {
    let strings = cat.strings;
    v matches ScreenView::Splash { title, intro, bindings, options, selected: sel } && title@ == strings.resolve(
        cat.ui.splash_title.0@,
    ) && string_texts(intro@) == cat.ui.splash_intro@.map_values(|id: StringId| strings.resolve(id.0@))
        && entry_texts(bindings@) == cat.ui.key_bindings@.map_values(|b: KeyBinding| binding_row(strings, scheme, b))
        && string_texts(options@) == splash_options(strings, scheme) && sel == selected
}

/// `v` is the screen `screen` shows: the splash, a list, a text entry, the
/// run frame, or the case report.
pub open spec fn screen_shown(
    cat: &Catalogue,
    screen: Screen,
    scheme: ControlScheme,
    run: Option<RunFrame>,
    v: ScreenView,
) -> bool {
    let strings = cat.strings;
    match screen {
        Screen::Splash { selected } => splash_shown(cat, scheme, selected, v),
        Screen::HunterSelect { selected, .. } => v matches ScreenView::List { title, entries, selected: sel }
            && title@ == strings.resolve("ui.hunter-select.title"@) && entry_texts(entries@)
            == cat.hunters.values().map_values(|h: HunterDef| roster_entry(strings, h)) && sel == Some(selected),
        Screen::SeedEntry { input, error } => entry_shown(
            strings,
            "ui.seed-entry.title"@,
            "ui.seed-entry.prompt"@,
            input,
            error,
            v,
        ),
        Screen::CodeEntry { input, error } => entry_shown(
            strings,
            "ui.replay-entry.title"@,
            "ui.replay-entry.prompt"@,
            input,
            error,
            v,
        ),
        Screen::Run => v matches ScreenView::Run(b) && match run {
            Some(f) => run_shown(f.sim, f.seed, f.modal, f.hint, f.look, f.resume, f.looking, *b),
            None => b.cells@.len() == 640 && b.inventory@.len() == 0 && b.actions@.len() == 0 && b.overlay is None,
        },
        Screen::Grimoire { selected } => v matches ScreenView::List { title, entries, selected: sel }
            && title@ == strings.resolve("ui.grimoire.title"@) && entry_texts(entries@)
            == cat.grimoire@.map_values(|g: GrimoireEntry| (strings.resolve(g.title.0@), strings.resolve(g.body.0@)))
            && sel == Some(selected),
        Screen::Relationships { selected } => list_shown(
            strings,
            "ui.relationships.title"@,
            match run {
                Some(f) => relationships(f.sim),
                None => seq![],
            },
            selected,
            v,
        ),
        Screen::RegionMap { selected } => list_shown(
            strings,
            "ui.region-map.title"@,
            match run {
                Some(f) => Seq::new(f.sim.world.maps@.len(), |i: int| region_entry(f.sim, i)),
                None => seq![],
            },
            selected,
            v,
        ),
        Screen::EventLog { selected } => list_shown(
            strings,
            "ui.event-log.title"@,
            match run {
                Some(f) => record_upto(f.sim, f.sim.state.log@.len() as int),
                None => seq![],
            },
            selected,
            v,
        ),
        Screen::Dossier { selected } => list_shown(
            strings,
            "ui.dossier.title"@,
            match run {
                Some(f) => dossier(f.sim, f.framings@),
                None => seq![],
            },
            selected,
            v,
        ),
        Screen::CaseReport => v matches ScreenView::CaseReport(c) && match run {
            Some(f) => report_shown(f.sim, f.outcome, f.share_code@, c),
            None => c.outcome@.len() == 0 && c.hidden_clues@.len() == 0 && c.routes@.len() == 0
                && c.share_code@.len() == 0,
        },
    }
}

fn resolved(strings: &StringTable, id: &str) -> (r: String)
    ensures
        r@ == strings.resolve(id@),
{
    text_owned(strings.ui(id))
}

fn copy_text(s: &String) -> (r: String)
    ensures
        r@ == s@,
{
    text_owned(s.as_str())
}

fn clamp_selection(selected: usize, len: usize) -> (r: Option<usize>)
    ensures
        r == clamped(selected, len as nat),
{
    let last = if len == 0 {
        0
    } else {
        len - 1
    };
    Some(
        if selected <= last {
            selected
        } else {
            last
        },
    )
}

fn list_view(strings: &StringTable, title_id: &str, entries: Vec<(String, String)>, selected: usize) -> (r: ScreenView)
    ensures
        list_shown(*strings, title_id@, entry_texts(entries@), selected, r),
{
    let sel = clamp_selection(selected, entries.len());
    ScreenView::List { title: resolved(strings, title_id), entries, selected: sel }
}

fn entry_view(
    strings: &StringTable,
    title_id: &str,
    prompt_id: &str,
    input: &String,
    error: &Option<String>,
) -> (r: ScreenView)
    ensures
        entry_shown(*strings, title_id@, prompt_id@, *input, *error, r),
{
    let e = match error {
        Some(t) => Some(copy_text(t)),
        None => None,
    };
    ScreenView::TextEntry {
        title: resolved(strings, title_id),
        prompt: resolved(strings, prompt_id),
        input: copy_text(input),
        error: e,
    }
}

fn splash_view(cat: &Catalogue, scheme: ControlScheme, selected: usize) -> (r: ScreenView)
    ensures
        splash_shown(cat, scheme, selected, r),
{
    let strings = &cat.strings;
    let mut intro: Vec<String> = Vec::new();
    let ids = &cat.ui.splash_intro;
    let mut k: usize = 0;
    while k < ids.len()
        invariant
            k <= ids@.len(),
            string_texts(intro@) == ids@.take(k as int).map_values(|id: StringId| strings.resolve(id.0@)),
        decreases ids@.len() - k,
    {
        let ghost before = string_texts(intro@);
        let line = text_owned(strings.get(&ids[k]));
        intro.push(line);
        proof {
            assert(string_texts(intro@) =~= before.push(strings.resolve(ids@[k as int].0@)));
            assert(ids@.take(k + 1) =~= ids@.take(k as int).push(ids@[k as int]));
        }
        k = k + 1;
        proof {
            assert(string_texts(intro@) =~= ids@.take(k as int).map_values(|id: StringId| strings.resolve(id.0@)));
        }
    }
    proof {
        assert(ids@.take(k as int) =~= ids@);
    }
    let steer = strings.ui(scheme.steer_id());
    let silver = key_hint(scheme, Intent::FireSilver);
    let killing = key_hint(scheme, Intent::KillingBlow);
    let log = key_hint(scheme, Intent::EventLog);
    let args = [("steer", steer), ("silver", silver.as_str()), ("killing", killing.as_str()), ("log", log.as_str())];
    let binds = &cat.ui.key_bindings;
    let mut bindings: Vec<(String, String)> = Vec::new();
    let mut b: usize = 0;
    while b < binds.len()
        invariant
            b <= binds@.len(),
            args_view(args@) =~= seq![
                ("steer"@, strings.resolve(
                    match scheme {
                        ControlScheme::Numpad => "ui.controls.numpad.steer"@,
                        ControlScheme::Roguelike => "ui.controls.roguelike.steer"@,
                    },
                )),
                ("silver"@, key_hint_text(scheme, Intent::FireSilver)),
                ("killing"@, key_hint_text(scheme, Intent::KillingBlow)),
                ("log"@, key_hint_text(scheme, Intent::EventLog)),
            ],
            entry_texts(bindings@) == binds@.take(b as int).map_values(|kb: KeyBinding| binding_row(*strings, scheme, kb)),
        decreases binds@.len() - b,
    {
        let ghost before = entry_texts(bindings@);
        let keys = strings.fill(&binds[b].keys, &args);
        let action = text_owned(strings.get(&binds[b].action));
        bindings.push((keys, action));
        proof {
            assert(entry_texts(bindings@) =~= before.push(binding_row(*strings, scheme, binds@[b as int])));
            assert(binds@.take(b + 1) =~= binds@.take(b as int).push(binds@[b as int]));
        }
        b = b + 1;
        proof {
            assert(entry_texts(bindings@) =~= binds@.take(b as int).map_values(
                |kb: KeyBinding| binding_row(*strings, scheme, kb),
            ));
        }
    }
    proof {
        assert(binds@.take(b as int) =~= binds@);
    }
    let mut options: Vec<String> = Vec::new();
    options.push(resolved(strings, "ui.splash.option.new-run"));
    options.push(resolved(strings, "ui.splash.option.enter-seed"));
    options.push(resolved(strings, "ui.splash.option.paste-code"));
    let scheme_args = [("scheme", strings.ui(scheme.label_id()))];
    options.push(strings.fill(&StringId(text_owned("ui.splash.option.controls")), &scheme_args));
    proof {
        assert(args_view(scheme_args@) =~= seq![(
            "scheme"@,
            strings.resolve(
                match scheme {
                    ControlScheme::Numpad => "ui.controls.numpad"@,
                    ControlScheme::Roguelike => "ui.controls.roguelike"@,
                },
            ),
        )]);
        assert(string_texts(options@) =~= splash_options(*strings, scheme));
    }
    ScreenView::Splash {
        title: text_owned(strings.get(&cat.ui.splash_title)),
        intro,
        bindings,
        options,
        selected,
    }
}

fn roster_view(cat: &Catalogue, selected: usize) -> (r: ScreenView)
    ensures
        r matches ScreenView::List { title, entries, selected: sel } && title@ == cat.strings.resolve(
            "ui.hunter-select.title"@,
        ) && entry_texts(entries@) == cat.hunters.values().map_values(|h: HunterDef| roster_entry(cat.strings, h))
            && sel == Some(selected),
{
    let strings = &cat.strings;
    let roster = cat.hunter_roster();
    let mut entries: Vec<(String, String)> = Vec::new();
    let mut k: usize = 0;
    while k < roster.len()
        invariant
            k <= roster@.len(),
            roster@.len() == cat.hunters.len_spec(),
            *strings == cat.strings,
            forall|i: int| 0 <= i < roster@.len() ==> *(#[trigger] roster@[i]).1 == cat.hunters.values()[i],
            entry_texts(entries@) == cat.hunters.values().take(k as int).map_values(
                |h: HunterDef| roster_entry(cat.strings, h),
            ),
        decreases roster@.len() - k,
    {
        let h = roster[k].1;
        let mut health = String::new();
        push_number(&mut health, h.health as u128);
        let mut lore = String::new();
        push_number(&mut lore, h.lore_cap as u128);
        let mut social = String::new();
        push_number(&mut social, h.social_cap as u128);
        let mut mystic = String::new();
        push_number(&mut mystic, h.mystic_cap as u128);
        let mut physical = String::new();
        push_number(&mut physical, h.physical_cap as u128);
        let args = [
            ("health", health.as_str()),
            ("lore", lore.as_str()),
            ("social", social.as_str()),
            ("mystic", mystic.as_str()),
            ("physical", physical.as_str()),
        ];
        let pools = strings.fill(&StringId(text_owned("ui.hunter-select.pools")), &args);
        proof {
            assert(args_view(args@) =~= seq![
                ("health"@, decimal(h.health as nat)),
                ("lore"@, decimal(h.lore_cap as nat)),
                ("social"@, decimal(h.social_cap as nat)),
                ("mystic"@, decimal(h.mystic_cap as nat)),
                ("physical"@, decimal(h.physical_cap as nat)),
            ]);
        }
        let mut names: Vec<String> = Vec::new();
        let mut j: usize = 0;
        while j < h.signatures.len()
            invariant
                j <= h.signatures@.len(),
                *strings == cat.strings,
                names@.map_values(|t: String| t@) == h.signatures@.take(j as int).map_values(
                    |g: SignatureDef| cat.strings.resolve(g.name.0@),
                ),
            decreases h.signatures@.len() - j,
        {
            let ghost before = names@.map_values(|t: String| t@);
            names.push(text_owned(strings.get(&h.signatures[j].name)));
            proof {
                assert(names@.map_values(|t: String| t@) =~= before.push(
                    cat.strings.resolve(h.signatures@[j as int].name.0@),
                ));
                assert(h.signatures@.take(j + 1) =~= h.signatures@.take(j as int).push(h.signatures@[j as int]));
            }
            j = j + 1;
            proof {
                assert(names@.map_values(|t: String| t@) =~= h.signatures@.take(j as int).map_values(
                    |g: SignatureDef| cat.strings.resolve(g.name.0@),
                ));
            }
        }
        proof {
            assert(h.signatures@.take(j as int) =~= h.signatures@);
        }
        let signatures = join_parts(&names, ", ");
        let mut body = text_owned(strings.get(&h.title));
        push_text(&mut body, "\n");
        push_text(&mut body, pools.as_str());
        push_text(&mut body, "\n");
        push_text(&mut body, signatures.as_str());
        let ghost prev = entry_texts(entries@);
        entries.push((text_owned(strings.get(&h.name)), body));
        proof {
            assert(*h == cat.hunters.values()[k as int]);
            assert(entry_texts(entries@) =~= prev.push(roster_entry(cat.strings, *h)));
            assert(cat.hunters.values().take(k + 1) =~= cat.hunters.values().take(k as int).push(*h));
        }
        k = k + 1;
        proof {
            assert(entry_texts(entries@) =~= cat.hunters.values().take(k as int).map_values(
                |hd: HunterDef| roster_entry(cat.strings, hd),
            ));
        }
    }
    proof {
        assert(cat.hunters.values().take(k as int) =~= cat.hunters.values());
    }
    ScreenView::List { title: resolved(strings, "ui.hunter-select.title"), entries, selected: Some(selected) }
}

fn grimoire_view(cat: &Catalogue, selected: usize) -> (r: ScreenView)
    ensures
        r matches ScreenView::List { title, entries, selected: sel } && title@ == cat.strings.resolve(
            "ui.grimoire.title"@,
        ) && entry_texts(entries@) == cat.grimoire@.map_values(
            |g: GrimoireEntry| (cat.strings.resolve(g.title.0@), cat.strings.resolve(g.body.0@)),
        ) && sel == Some(selected),
{
    let strings = &cat.strings;
    let book = &cat.grimoire;
    let mut entries: Vec<(String, String)> = Vec::new();
    let mut k: usize = 0;
    while k < book.len()
        invariant
            k <= book@.len(),
            *strings == cat.strings,
            *book == cat.grimoire,
            entry_texts(entries@) == book@.take(k as int).map_values(
                |g: GrimoireEntry| (cat.strings.resolve(g.title.0@), cat.strings.resolve(g.body.0@)),
            ),
        decreases book@.len() - k,
    {
        let ghost prev = entry_texts(entries@);
        let g = &book[k];
        entries.push((text_owned(strings.get(&g.title)), text_owned(strings.get(&g.body))));
        proof {
            assert(entry_texts(entries@) =~= prev.push((cat.strings.resolve(g.title.0@), cat.strings.resolve(g.body.0@))));
            assert(book@.take(k + 1) =~= book@.take(k as int).push(book@[k as int]));
        }
        k = k + 1;
        proof {
            assert(entry_texts(entries@) =~= book@.take(k as int).map_values(
                |g: GrimoireEntry| (cat.strings.resolve(g.title.0@), cat.strings.resolve(g.body.0@)),
            ));
        }
    }
    proof {
        assert(book@.take(k as int) =~= book@);
    }
    ScreenView::List { title: resolved(strings, "ui.grimoire.title"), entries, selected: Some(selected) }
}

/// The frame for the screen that is up, with the status line and the panel
/// labels.
pub fn view_model(
    cat: &Catalogue,
    screen: &Screen,
    scheme: ControlScheme,
    status: &String,
    run: Option<RunFrame>,
) -> (r: ViewModel)
    requires
        run matches Some(f) ==> run_readable(f),
    ensures
        screen_shown(cat, *screen, scheme, run, r.screen),
        r.status@ == status@,
        labels_resolved(cat.strings, r.labels),
{
    let strings = &cat.strings;
    let shown = match screen {
        Screen::Splash { selected } => splash_view(cat, scheme, *selected),
        Screen::HunterSelect { selected, .. } => roster_view(cat, *selected),
        Screen::SeedEntry { input, error } => entry_view(
            strings,
            "ui.seed-entry.title",
            "ui.seed-entry.prompt",
            input,
            error,
        ),
        Screen::CodeEntry { input, error } => entry_view(
            strings,
            "ui.replay-entry.title",
            "ui.replay-entry.prompt",
            input,
            error,
        ),
        Screen::Run => {
            let frame = match run {
                Some(f) => run_view(f.sim, f.seed, &f.modal, f.hint, f.look, f.resume, f.looking),
                None => {
                    let e = empty_run_view();
                    assert(e.cells@.len() == 640);
                    e
                },
            };
            ScreenView::Run(Box::new(frame))
        },
        Screen::Grimoire { selected } => grimoire_view(cat, *selected),
        Screen::Relationships { selected } => {
            let entries = match &run {
                Some(f) => relationship_entries(f.sim),
                None => no_entries(),
            };
            list_view(strings, "ui.relationships.title", entries, *selected)
        },
        Screen::RegionMap { selected } => {
            let entries = match &run {
                Some(f) => region_entries(f.sim),
                None => no_entries(),
            };
            list_view(strings, "ui.region-map.title", entries, *selected)
        },
        Screen::EventLog { selected } => {
            let entries = match &run {
                Some(f) => record_entries(f.sim),
                None => no_entries(),
            };
            list_view(strings, "ui.event-log.title", entries, *selected)
        },
        Screen::Dossier { selected } => {
            let entries = match &run {
                Some(f) => dossier_entries(f.sim, &f.framings),
                None => no_entries(),
            };
            list_view(strings, "ui.dossier.title", entries, *selected)
        },
        Screen::CaseReport => {
            let report = match run {
                Some(f) => case_report(f.sim, f.outcome, f.share_code),
                None => CaseReportView {
                    outcome: String::new(),
                    villain: String::new(),
                    origin: String::new(),
                    scheme: String::new(),
                    hidden_clues: Vec::new(),
                    tier: String::new(),
                    preparations: Vec::new(),
                    routes: Vec::new(),
                    share_code: String::new(),
                },
            };
            ScreenView::CaseReport(report)
        },
    };
    ViewModel { screen: shown, status: copy_text(status), labels: PanelLabels::build(strings) }
}

fn no_entries() -> (r: Vec<(String, String)>)
    ensures
        entry_texts(r@) == Seq::<(Seq<char>, Seq<char>)>::empty(),
{
    let r: Vec<(String, String)> = Vec::new();
    proof {
        assert(entry_texts(r@) =~= Seq::<(Seq<char>, Seq<char>)>::empty());
    }
    r
}

} // verus!
