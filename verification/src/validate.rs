//! Cross-reference and contract validation for the content catalogue.
//!
//! These checks run in every build that loads content, so hand-edited
//! content fails loudly with author-readable messages. Each check adds an
//! issue for every problem it finds and adds none when its rule holds, so
//! the catalogue is valid exactly when the issue list comes back empty.
use vstd::prelude::*;

use crate::catalogue::Catalogue;
use crate::keyed::KeyedMap;
use crate::schema::{
    ClueCategory, ClueTemplate, Concealment, EvidenceAxis, MapRole, NpcArchetype, OpportunityAction, PoolKind,
    ConditionAxis, ConditionDef, KeyBinding, OpeningAnchor, OpeningDef, OpeningGrant, SecretTemplate, SiteKind, Coord, Terrain, SlotDef, spec_walkable, spec_forceable, spec_opaque, EnemyDef, GatherDef, GatherDiscovery, HunterDef, ItemDef, ItemKind, MapTemplate,
    OriginDef, RecipeDef, SchemeDef, VillainDef,
};
use crate::catalogue::templates_with_role;
use crate::strings::StringId;
use crate::text::{
    blank, chars_of, contains_text, decimal, has_sub, is_blank, push_char, push_number, push_text, text_eq, text_from_chars, text_owned, texts,
};

verus! {

pub const MAP_WIDTH: usize = 32;

pub const MAP_HEIGHT: usize = 20;

/// A check's effect on the issue list: it only ever adds, and it adds
/// something exactly when its rule is broken.
pub open spec fn reports(before: Seq<String>, after: Seq<String>, holds: bool) -> bool {
    keeps(before, after) && (after.len() == before.len() <==> holds)
}

/// `after` is `before` with issues added at the end: every issue already
/// reported stays where it was.
pub open spec fn keeps(before: Seq<String>, after: Seq<String>) -> bool {
    &&& after.len() >= before.len()
    &&& forall|j: int| 0 <= j < before.len() ==> #[trigger] after[j] == before[j]
}

/// Some issue from position `from` on reads exactly `msg`.
pub open spec fn has_issue(issues: Seq<String>, from: int, msg: Seq<char>) -> bool {
    exists|j: int| 0 <= j && from <= j < issues.len() && #[trigger] issues[j]@ == msg
}

/// An issue reported stays reported while later checks only add.
pub proof fn lemma_issue_kept(before: Seq<String>, after: Seq<String>, from: int, msg: Seq<char>)
    requires
        has_issue(before, from, msg),
        keeps(before, after),
    ensures
        has_issue(after, from, msg),
{
    let j = choose|j: int| 0 <= j && from <= j < before.len() && #[trigger] before[j]@ == msg;
    assert(after[j] == before[j]);
}

/// Every text in `list` is a key of `known`.
pub open spec fn all_in<V>(list: Seq<String>, known: KeyedMap<V>) -> bool {
    forall|i: int| 0 <= i < list.len() ==> known.contains(#[trigger] list[i]@)
}

/// No text occurs twice.
pub open spec fn seq_distinct(s: Seq<Seq<char>>) -> bool {
    forall|i: int, j: int| 0 <= i < j < s.len() ==> s[i] != s[j]
}

/// Report one issue.
fn report(issues: &mut Vec<String>, message: String)
    ensures
        final(issues)@ == old(issues)@.push(message),
{
    issues.push(message);
}

/// The pieces' texts, one after another.
pub open spec fn joined(parts: Seq<&str>) -> Seq<char>
    decreases parts.len(),
{
    if parts.len() == 0 {
        seq![]
    } else {
        joined(parts.drop_last()) + parts.last()@
    }
}

/// A message made of the given pieces, in order.
fn say(parts: &[&str]) -> (r: String)
    ensures
        r@ == joined(parts@),
{
    let mut out = String::new();
    let mut k: usize = 0;
    while k < parts.len()
        invariant
            k <= parts.len(),
            out@ == joined(parts@.take(k as int)),
        decreases parts.len() - k,
    {
        proof {
            assert(parts@.take(k + 1).drop_last() =~= parts@.take(k as int));
        }
        push_text(&mut out, parts[k]);
        k = k + 1;
    }
    proof {
        assert(parts@.take(k as int) =~= parts@);
    }
    out
}

/// The decimal text of a number, for messages.
fn num(n: u128) -> (r: String)
    ensures
        r@ == decimal(n as nat),
{
    let mut out = String::new();
    push_number(&mut out, n);
    proof {
        assert(out@ =~= decimal(n as nat));
    }
    out
}

/// Report, under `prefix` and `suffix`, every entry of `list` that is not a
/// key of `known`.
fn report_unknown<V>(
    issues: &mut Vec<String>,
    list: &Vec<String>,
    known: &KeyedMap<V>,
    prefix: &str,
    suffix: &str,
)
    ensures
        reports(old(issues)@, final(issues)@, all_in(list@, *known)),
{
    let ghost start = issues@;
    let mut k: usize = 0;
    while k < list.len()
        invariant
            k <= list.len(),
            issues@.len() >= start.len(),
            keeps(start, issues@),
            issues@.len() == start.len() <==> forall|i: int| 0 <= i < k ==> known.contains(#[trigger] list@[i]@),
        decreases list.len() - k,
    {
        if !known.contains_key(list[k].as_str()) {
            report(issues, say(&[prefix, list[k].as_str(), suffix]));
        }
        k = k + 1;
    }
}

/// Whether no text of `v` occurs twice.
fn texts_distinct(v: &Vec<String>) -> (r: bool)
    ensures
        r == seq_distinct(texts(v@)),
{
    let mut j: usize = 0;
    while j < v.len()
        invariant
            j <= v.len(),
            forall|a: int, b: int| 0 <= a < b < j ==> v@[a]@ != v@[b]@,
        decreases v.len() - j,
    {
        let mut i: usize = 0;
        while i < j
            invariant
                i <= j < v.len(),
                forall|a: int| 0 <= a < i ==> v@[a]@ != v@[j as int]@,
            decreases j - i,
        {
            if text_eq(v[i].as_str(), v[j].as_str()) {
                proof {
                    assert(texts(v@)[i as int] == texts(v@)[j as int]);
                }
                return false;
            }
            i = i + 1;
        }
        j = j + 1;
    }
    proof {
        assert forall|a: int, b: int| 0 <= a < b < texts(v@).len() implies texts(v@)[a] != texts(v@)[b] by {
            assert(v@[a]@ != v@[b]@);
        }
    }
    true
}

// ---------------------------------------------------------------------------
// names used in messages
// ---------------------------------------------------------------------------
/// The name `site_name` gives, as the player reads it in a message.
pub open spec fn spec_site_name(kind: SiteKind) -> Seq<char> {
    match kind {
        SiteKind::KillSite => "KillSite"@,
        SiteKind::Npc => "Npc"@,
        SiteKind::Grave => "Grave"@,
        SiteKind::Church => "Church"@,
        SiteKind::Wilds => "Wilds"@,
        SiteKind::OutlyingSite => "OutlyingSite"@,
        SiteKind::Workstation => "Workstation"@,
    }
}

fn site_name(kind: SiteKind) -> (r: &'static str)
    ensures
        r@ == spec_site_name(kind),
{
    match kind {
        SiteKind::KillSite => "KillSite",
        SiteKind::Npc => "Npc",
        SiteKind::Grave => "Grave",
        SiteKind::Church => "Church",
        SiteKind::Wilds => "Wilds",
        SiteKind::OutlyingSite => "OutlyingSite",
        SiteKind::Workstation => "Workstation",
    }
}

/// The name `role_name` gives, as the player reads it in a message.
pub open spec fn spec_role_name(role: MapRole) -> Seq<char> {
    match role {
        MapRole::Settlement => "Settlement"@,
        MapRole::Wilderness => "Wilderness"@,
        MapRole::OutlyingSite => "OutlyingSite"@,
    }
}

fn role_name(role: MapRole) -> (r: &'static str)
    ensures
        r@ == spec_role_name(role),
{
    match role {
        MapRole::Settlement => "Settlement",
        MapRole::Wilderness => "Wilderness",
        MapRole::OutlyingSite => "OutlyingSite",
    }
}

/// The name `category_name` gives, as the player reads it in a message.
pub open spec fn spec_category_name(c: ClueCategory) -> Seq<char> {
    match c {
        ClueCategory::Identity => "Identity"@,
        ClueCategory::OriginSign => "OriginSign"@,
        ClueCategory::SchemeSign => "SchemeSign"@,
        ClueCategory::Location => "Location"@,
        ClueCategory::Weakness => "Weakness"@,
        ClueCategory::IngredientSource => "IngredientSource"@,
    }
}

fn category_name(c: ClueCategory) -> (r: &'static str)
    ensures
        r@ == spec_category_name(c),
{
    match c {
        ClueCategory::Identity => "Identity",
        ClueCategory::OriginSign => "OriginSign",
        ClueCategory::SchemeSign => "SchemeSign",
        ClueCategory::Location => "Location",
        ClueCategory::Weakness => "Weakness",
        ClueCategory::IngredientSource => "IngredientSource",
    }
}

/// The name `axis_name` gives, as the player reads it in a message.
pub open spec fn spec_axis_name(a: EvidenceAxis) -> Seq<char> {
    match a {
        EvidenceAxis::Villain => "Villain"@,
        EvidenceAxis::Origin => "Origin"@,
        EvidenceAxis::Scheme => "Scheme"@,
    }
}

fn axis_name(a: EvidenceAxis) -> (r: &'static str)
    ensures
        r@ == spec_axis_name(a),
{
    match a {
        EvidenceAxis::Villain => "Villain",
        EvidenceAxis::Origin => "Origin",
        EvidenceAxis::Scheme => "Scheme",
    }
}

/// The name `action_name` gives, as the player reads it in a message.
pub open spec fn spec_action_name(a: OpportunityAction) -> Seq<char> {
    match a {
        OpportunityAction::Examine => "Examine"@,
        OpportunityAction::Track => "Track"@,
        OpportunityAction::Gossip => "Gossip"@,
        OpportunityAction::Persuade => "Persuade"@,
        OpportunityAction::Spy => "Spy"@,
        OpportunityAction::Commune => "Commune"@,
        OpportunityAction::Scavenge => "Scavenge"@,
        OpportunityAction::Force => "Force"@,
    }
}

fn action_name(a: OpportunityAction) -> (r: &'static str)
    ensures
        r@ == spec_action_name(a),
{
    match a {
        OpportunityAction::Examine => "Examine",
        OpportunityAction::Track => "Track",
        OpportunityAction::Gossip => "Gossip",
        OpportunityAction::Persuade => "Persuade",
        OpportunityAction::Spy => "Spy",
        OpportunityAction::Commune => "Commune",
        OpportunityAction::Scavenge => "Scavenge",
        OpportunityAction::Force => "Force",
    }
}

/// The name `pool_name` gives, as the player reads it in a message.
pub open spec fn spec_pool_name(p: PoolKind) -> Seq<char> {
    match p {
        PoolKind::Lore => "Lore"@,
        PoolKind::Social => "Social"@,
        PoolKind::Mystic => "Mystic"@,
        PoolKind::Physical => "Physical"@,
    }
}

fn pool_name(p: PoolKind) -> (r: &'static str)
    ensures
        r@ == spec_pool_name(p),
{
    match p {
        PoolKind::Lore => "Lore",
        PoolKind::Social => "Social",
        PoolKind::Mystic => "Mystic",
        PoolKind::Physical => "Physical",
    }
}

/// The name `terrain_name` gives, as the player reads it in a message.
pub open spec fn spec_terrain_name(t: Terrain) -> Seq<char> {
    match t {
        Terrain::Floor => "Floor"@,
        Terrain::Wall => "Wall"@,
        Terrain::Tree => "Tree"@,
        Terrain::Water => "Water"@,
        Terrain::Grave => "Grave"@,
        Terrain::Door => "Door"@,
        Terrain::BarredDoor => "BarredDoor"@,
        Terrain::Rubble => "Rubble"@,
        Terrain::Road => "Road"@,
        Terrain::Grass => "Grass"@,
        Terrain::Altar => "Altar"@,
        Terrain::Workstation => "Workstation"@,
    }
}

fn terrain_name(t: Terrain) -> (r: &'static str)
    ensures
        r@ == spec_terrain_name(t),
{
    match t {
        Terrain::Floor => "Floor",
        Terrain::Wall => "Wall",
        Terrain::Tree => "Tree",
        Terrain::Water => "Water",
        Terrain::Grave => "Grave",
        Terrain::Door => "Door",
        Terrain::BarredDoor => "BarredDoor",
        Terrain::Rubble => "Rubble",
        Terrain::Road => "Road",
        Terrain::Grass => "Grass",
        Terrain::Altar => "Altar",
        Terrain::Workstation => "Workstation",
    }
}

/// The name `anchor_name` gives, as the player reads it in a message.
pub open spec fn spec_anchor_name(a: OpeningAnchor) -> Seq<char> {
    match a {
        OpeningAnchor::Tile => "Tile"@,
        OpeningAnchor::Npc => "Npc"@,
    }
}

fn anchor_name(a: OpeningAnchor) -> (r: &'static str)
    ensures
        r@ == spec_anchor_name(a),
{
    match a {
        OpeningAnchor::Tile => "Tile",
        OpeningAnchor::Npc => "Npc",
    }
}

/// The name `grant_name` gives, as the player reads it in a message.
pub open spec fn spec_grant_name(g: OpeningGrant) -> Seq<char> {
    match g {
        OpeningGrant::Items => "Items"@,
        OpeningGrant::Lead => "Lead"@,
        OpeningGrant::Identity => "Identity"@,
    }
}

fn grant_name(g: OpeningGrant) -> (r: &'static str)
    ensures
        r@ == spec_grant_name(g),
{
    match g {
        OpeningGrant::Items => "Items",
        OpeningGrant::Lead => "Lead",
        OpeningGrant::Identity => "Identity",
    }
}

/// The name `condition_axis_name` gives, as the player reads it in a message.
pub open spec fn spec_condition_axis_name(a: ConditionAxis) -> Seq<char> {
    match a {
        ConditionAxis::Season => "Season"@,
        ConditionAxis::Reception => "Reception"@,
        ConditionAxis::Hour => "Hour"@,
        ConditionAxis::Provenance => "Provenance"@,
    }
}

fn condition_axis_name(a: ConditionAxis) -> (r: &'static str)
    ensures
        r@ == spec_condition_axis_name(a),
{
    match a {
        ConditionAxis::Season => "Season",
        ConditionAxis::Reception => "Reception",
        ConditionAxis::Hour => "Hour",
        ConditionAxis::Provenance => "Provenance",
    }
}

// ---------------------------------------------------------------------------
// balance
// ---------------------------------------------------------------------------
pub open spec fn balance_ok(cat: &Catalogue) -> bool {
    let b = cat.balance;
    &&& b.combat.melee_hit_percent <= 100
    &&& b.combat.ranged_hit_percent <= 100
    &&& b.combat.trapped_attack_penalty_percent <= 100
    &&& b.combat.pounce_attack_bonus_percent <= 100
    &&& b.combat.killing_blow_health_percent <= 100
    &&& b.loot.drop_percent <= 100
    &&& b.generator.ambush_percent_min <= 100
    &&& b.generator.ambush_percent_max <= 100
    &&& b.generator.ambush_percent_min <= b.generator.ambush_percent_max
    &&& 500 <= b.generator.viability_threshold_permille <= 950
    &&& b.generator.early_route_deadline <= b.generator.fallback_route_deadline
    &&& b.generator.fallback_route_deadline < b.clock.travel_turns
    &&& b.clock.minor_event_turn < b.clock.major_event_turn
    &&& b.clock.major_event_turn < b.clock.travel_turns
}

fn check_percent(issues: &mut Vec<String>, label: &str, value: u8)
    ensures
        reports(old(issues)@, final(issues)@, value <= 100),
{
    if value > 100 {
        report(issues, say(&["balance: ", label, " is ", num(value as u128).as_str(), ", above 100 percent"]));
    }
}

/// Every ordering rule of the balance tuning that is broken has its issue,
/// in its own words, among `issues` from position `from` on: the ambush
/// range, the route deadlines, and the scheme event turns.
pub open spec fn balance_orders_reported(issues: Seq<String>, from: int, cat: &Catalogue) -> bool {
    let g = cat.balance.generator;
    let c = cat.balance.clock;
    &&& g.ambush_percent_min > g.ambush_percent_max ==> has_issue(
        issues,
        from,
        "balance: generator.ambush_percent_min exceeds ambush_percent_max"@,
    )
    &&& g.early_route_deadline > g.fallback_route_deadline ==> has_issue(
        issues,
        from,
        "balance: early_route_deadline is later than fallback_route_deadline"@,
    )
    &&& g.fallback_route_deadline >= c.travel_turns ==> has_issue(
        issues,
        from,
        "balance: fallback_route_deadline must fall before the final hunt"@,
    )
    &&& (c.minor_event_turn >= c.major_event_turn || c.major_event_turn >= c.travel_turns) ==> has_issue(
        issues,
        from,
        "balance: scheme event turns must satisfy minor < major < travel_turns"@,
    )
}

proof fn lemma_balance_kept(before: Seq<String>, after: Seq<String>, from: int, cat: &Catalogue)
    requires
        balance_orders_reported(before, from, cat),
        keeps(before, after),
    ensures
        balance_orders_reported(after, from, cat),
{
    let g = cat.balance.generator;
    let c = cat.balance.clock;
    if g.ambush_percent_min > g.ambush_percent_max {
        lemma_issue_kept(before, after, from, "balance: generator.ambush_percent_min exceeds ambush_percent_max"@);
    }
    if g.early_route_deadline > g.fallback_route_deadline {
        lemma_issue_kept(before, after, from, "balance: early_route_deadline is later than fallback_route_deadline"@);
    }
    if g.fallback_route_deadline >= c.travel_turns {
        lemma_issue_kept(before, after, from, "balance: fallback_route_deadline must fall before the final hunt"@);
    }
    if c.minor_event_turn >= c.major_event_turn || c.major_event_turn >= c.travel_turns {
        lemma_issue_kept(before, after, from, "balance: scheme event turns must satisfy minor < major < travel_turns"@);
    }
}

/// A catalogue that validates is tuned in order: its ambush chance range
/// runs from low to high, every hit and drop chance is a percentage, the
/// early route is due no later than the fallback, the fallback before the
/// final hunt, and the minor scheme event before the major one, before the
/// final hunt.
pub proof fn lemma_valid_tuning_is_ordered(cat: &Catalogue)
    requires
        catalogue_valid(cat),
    ensures
        cat.balance.generator.ambush_percent_min <= cat.balance.generator.ambush_percent_max,
        cat.balance.generator.ambush_percent_max <= 100,
        cat.balance.combat.melee_hit_percent <= 100,
        cat.balance.combat.ranged_hit_percent <= 100,
        cat.balance.loot.drop_percent <= 100,
        cat.balance.generator.early_route_deadline <= cat.balance.generator.fallback_route_deadline,
        cat.balance.generator.fallback_route_deadline < cat.balance.clock.travel_turns,
        cat.balance.clock.minor_event_turn < cat.balance.clock.major_event_turn,
        cat.balance.clock.major_event_turn < cat.balance.clock.travel_turns,
        500 <= cat.balance.generator.viability_threshold_permille <= 950,
{
}

fn report_fixed(issues: &mut Vec<String>, message: &str)
    ensures
        final(issues)@.len() == old(issues)@.len() + 1,
        final(issues)@ == old(issues)@.push(final(issues)@.last()),
        final(issues)@.last()@ == message@,
{
    report(issues, text_owned(message));
}

fn check_balance(cat: &Catalogue, issues: &mut Vec<String>)
    ensures
        reports(old(issues)@, final(issues)@, balance_ok(cat)),
        balance_orders_reported(final(issues)@, old(issues)@.len() as int, cat),
{
    let ghost start = issues@;
    let b = &cat.balance;
    check_percent(issues, "combat.melee_hit_percent", b.combat.melee_hit_percent);
    check_percent(issues, "combat.ranged_hit_percent", b.combat.ranged_hit_percent);
    check_percent(issues, "combat.trapped_attack_penalty_percent", b.combat.trapped_attack_penalty_percent);
    check_percent(issues, "combat.pounce_attack_bonus_percent", b.combat.pounce_attack_bonus_percent);
    check_percent(issues, "combat.killing_blow_health_percent", b.combat.killing_blow_health_percent);
    check_percent(issues, "loot.drop_percent", b.loot.drop_percent);
    check_percent(issues, "generator.ambush_percent_min", b.generator.ambush_percent_min);
    check_percent(issues, "generator.ambush_percent_max", b.generator.ambush_percent_max);
    let ghost c0 = issues@;
    if b.generator.ambush_percent_min > b.generator.ambush_percent_max {
        report_fixed(issues, "balance: generator.ambush_percent_min exceeds ambush_percent_max");
        proof {
            assert(issues@[c0.len() as int]@ == "balance: generator.ambush_percent_min exceeds ambush_percent_max"@);
        }
    }
    let ghost c1 = issues@;
    let threshold = b.generator.viability_threshold_permille;
    if threshold < 500 || threshold > 950 {
        report(
            issues,
            say(
                &[
                    "balance: generator.viability_threshold_permille is ",
                    num(threshold as u128).as_str(),
                    ", outside the tuning bounds 500..=950",
                ],
            ),
        );
    }
    let ghost c2 = issues@;
    if b.generator.early_route_deadline > b.generator.fallback_route_deadline {
        report_fixed(issues, "balance: early_route_deadline is later than fallback_route_deadline");
        proof {
            assert(issues@[c2.len() as int]@ == "balance: early_route_deadline is later than fallback_route_deadline"@);
        }
    }
    let ghost c3 = issues@;
    if b.generator.fallback_route_deadline >= b.clock.travel_turns {
        report_fixed(issues, "balance: fallback_route_deadline must fall before the final hunt");
        proof {
            assert(issues@[c3.len() as int]@ == "balance: fallback_route_deadline must fall before the final hunt"@);
        }
    }
    let ghost c4 = issues@;
    if b.clock.minor_event_turn >= b.clock.major_event_turn || b.clock.major_event_turn >= b.clock.travel_turns {
        report_fixed(issues, "balance: scheme event turns must satisfy minor < major < travel_turns");
        proof {
            assert(issues@[c4.len() as int]@ == "balance: scheme event turns must satisfy minor < major < travel_turns"@);
        }
    }
    proof {
        let g = cat.balance.generator;
        let c = cat.balance.clock;
        let from = start.len() as int;
        assert(c0.len() >= start.len());
        if g.ambush_percent_min > g.ambush_percent_max {
            lemma_issue_kept(c1, issues@, from, "balance: generator.ambush_percent_min exceeds ambush_percent_max"@);
        }
        if g.early_route_deadline > g.fallback_route_deadline {
            lemma_issue_kept(c3, issues@, from, "balance: early_route_deadline is later than fallback_route_deadline"@);
        }
        if g.fallback_route_deadline >= c.travel_turns {
            lemma_issue_kept(c4, issues@, from, "balance: fallback_route_deadline must fall before the final hunt"@);
        }
    }
}

// ---------------------------------------------------------------------------
// hunters
// ---------------------------------------------------------------------------
/// The manoeuvre ids of a hunter followed by her signature ids.
pub open spec fn ability_ids(h: HunterDef) -> Seq<Seq<char>> {
    h.manoeuvres@.map_values(|m: crate::schema::ManoeuvreDef| m.id@) + h.signatures@.map_values(
        |s: crate::schema::SignatureDef| s.id@,
    )
}

pub open spec fn hunter_ok(cat: &Catalogue, h: HunterDef) -> bool {
    &&& all_in(h.starting_items@, cat.items)
    &&& seq_distinct(ability_ids(h))
    &&& forall|i: int| 0 <= i < h.manoeuvres@.len() ==> (#[trigger] h.manoeuvres@[i]).stamina_cost <= h.stamina_cap
    &&& forall|i: int| 0 <= i < h.signatures@.len() ==> (#[trigger] h.signatures@[i]).physical_cost <= h.physical_cap
    &&& !(h.lore_cap == 0 && h.social_cap == 0 && h.mystic_cap == 0)
}

pub open spec fn hunters_ok(cat: &Catalogue) -> bool {
    &&& cat.hunters.len_spec() > 0
    &&& cat.hunters.contains(cat.hunter_id@)
    &&& forall|i: int| 0 <= i < cat.hunters.len_spec() ==> hunter_ok(cat, #[trigger] cat.hunters.values()[i])
}

fn abilities_distinct(h: &HunterDef) -> (r: bool)
    ensures
        r == seq_distinct(ability_ids(*h)),
{
    let mut ids: Vec<String> = Vec::new();
    let mut k: usize = 0;
    while k < h.manoeuvres.len()
        invariant
            k <= h.manoeuvres.len(),
            texts(ids@) =~= h.manoeuvres@.take(k as int).map_values(|m: crate::schema::ManoeuvreDef| m.id@),
        decreases h.manoeuvres.len() - k,
    {
        let ghost prev = ids@;
        let id = h.manoeuvres[k].id.clone();
        ids.push(id);
        proof {
            assert(h.manoeuvres@.take(k + 1) =~= h.manoeuvres@.take(k as int).push(h.manoeuvres@[k as int]));
            assert(texts(ids@) =~= texts(prev).push(id@));
        }
        k = k + 1;
    }
    let mut s: usize = 0;
    while s < h.signatures.len()
        invariant
            s <= h.signatures.len(),
            h.manoeuvres@.take(h.manoeuvres@.len() as int) =~= h.manoeuvres@,
            texts(ids@) =~= h.manoeuvres@.map_values(|m: crate::schema::ManoeuvreDef| m.id@) + h.signatures@.take(
                s as int,
            ).map_values(|x: crate::schema::SignatureDef| x.id@),
        decreases h.signatures.len() - s,
    {
        let ghost prev = ids@;
        let id = h.signatures[s].id.clone();
        ids.push(id);
        proof {
            assert(h.signatures@.take(s + 1) =~= h.signatures@.take(s as int).push(h.signatures@[s as int]));
            assert(texts(ids@) =~= texts(prev).push(id@));
        }
        s = s + 1;
    }
    proof {
        assert(h.signatures@.take(h.signatures@.len() as int) =~= h.signatures@);
        assert(texts(ids@) =~= ability_ids(*h));
    }
    texts_distinct(&ids)
}

fn check_one_hunter(cat: &Catalogue, id: &String, h: &HunterDef, issues: &mut Vec<String>)
    ensures
        reports(old(issues)@, final(issues)@, hunter_ok(cat, *h)),
{
    let mut prefix = say(&["hunters: '", id.as_str(), "' starting item '"]);
    report_unknown(issues, &h.starting_items, &cat.items, prefix.as_str(), "' is not in items.toml");
    let ghost n1 = issues@.len();
    let ghost s1 = issues@;
    if !abilities_distinct(h) {
        report(issues, say(&["hunters: '", id.as_str(), "' manoeuvre/signature ids must be unique"]));
    }
    let ghost n2 = issues@.len();
    let ghost s2 = issues@;
    let mut k: usize = 0;
    while k < h.manoeuvres.len()
        invariant
            k <= h.manoeuvres.len(),
            issues@.len() >= n2,
            keeps(s2, issues@),
            issues@.len() == n2 <==> forall|i: int| 0 <= i < k ==> (#[trigger] h.manoeuvres@[i]).stamina_cost <= h.stamina_cap,
        decreases h.manoeuvres.len() - k,
    {
        if h.manoeuvres[k].stamina_cost > h.stamina_cap {
            report(
                issues,
                say(&["hunters: '", id.as_str(), "' manoeuvre '", h.manoeuvres[k].id.as_str(), "' costs more stamina than the cap"]),
            );
        }
        k = k + 1;
    }
    let ghost n3 = issues@.len();
    let ghost s3 = issues@;
    let mut s: usize = 0;
    while s < h.signatures.len()
        invariant
            s <= h.signatures.len(),
            issues@.len() >= n3,
            keeps(s3, issues@),
            issues@.len() == n3 <==> forall|i: int| 0 <= i < s ==> (#[trigger] h.signatures@[i]).physical_cost <= h.physical_cap,
        decreases h.signatures.len() - s,
    {
        if h.signatures[s].physical_cost > h.physical_cap {
            report(
                issues,
                say(&["hunters: '", id.as_str(), "' signature '", h.signatures[s].id.as_str(), "' costs more Physical than the cap"]),
            );
        }
        s = s + 1;
    }
    if h.lore_cap == 0 && h.social_cap == 0 && h.mystic_cap == 0 {
        report(
            issues,
            say(&["hunters: '", id.as_str(), "' has no investigation pool, so no route can be certified for her"]),
        );
    }
}

fn check_hunter(cat: &Catalogue, issues: &mut Vec<String>)
    ensures
        reports(old(issues)@, final(issues)@, hunters_ok(cat)),
{
    if cat.hunters.is_empty() {
        report(issues, say(&["hunters: no hunter profiles were loaded"]));
        return;
    }
    if !cat.hunters.contains_key(cat.hunter_id.as_str()) {
        report(issues, say(&["hunters: selected hunter '", cat.hunter_id.as_str(), "' is not in the roster"]));
    }
    let ghost n0 = issues@.len();
    let ghost s0 = issues@;
    let ghost selected = cat.hunters.contains(cat.hunter_id@);
    let mut k: usize = 0;
    while k < cat.hunters.len()
        invariant
            k <= cat.hunters.len_spec(),
            issues@.len() >= n0,
            keeps(s0, issues@),
            issues@.len() == n0 <==> forall|i: int| 0 <= i < k ==> hunter_ok(cat, #[trigger] cat.hunters.values()[i]),
        decreases cat.hunters.len_spec() - k,
    {
        let (id, h) = cat.hunters.entry(k);
        check_one_hunter(cat, id, h, issues);
        k = k + 1;
    }
}

// ---------------------------------------------------------------------------
// items and recipes
// ---------------------------------------------------------------------------
pub open spec fn is_ammunition(kind: ItemKind) -> bool {
    kind is Ammunition || kind is WeaknessAmmunition
}

pub open spec fn item_ok(cat: &Catalogue, item: ItemDef) -> bool {
    item.kind matches ItemKind::RangedWeapon { ammo, .. } ==> {
        &&& cat.items.contains(ammo@)
        &&& is_ammunition(cat.items.lookup(ammo@).unwrap().kind)
    }
}

pub open spec fn recipe_ok(cat: &Catalogue, recipe: RecipeDef) -> bool {
    &&& all_in(recipe.inputs@, cat.items)
    &&& cat.items.contains(recipe.output@)
    &&& recipe.inputs@.len() > 0
}

pub open spec fn items_and_recipes_ok(cat: &Catalogue) -> bool {
    &&& forall|i: int| 0 <= i < cat.items.len_spec() ==> item_ok(cat, #[trigger] cat.items.values()[i])
    &&& forall|i: int| 0 <= i < cat.recipes.len_spec() ==> recipe_ok(cat, #[trigger] cat.recipes.values()[i])
}

fn check_items_and_recipes(cat: &Catalogue, issues: &mut Vec<String>)
    ensures
        reports(old(issues)@, final(issues)@, items_and_recipes_ok(cat)),
{
    let ghost n0 = issues@.len();
    let ghost s0 = issues@;
    let mut k: usize = 0;
    while k < cat.items.len()
        invariant
            k <= cat.items.len_spec(),
            issues@.len() >= n0,
            keeps(s0, issues@),
            issues@.len() == n0 <==> forall|i: int| 0 <= i < k ==> item_ok(cat, #[trigger] cat.items.values()[i]),
        decreases cat.items.len_spec() - k,
    {
        let (id, item) = cat.items.entry(k);
        match &item.kind {
            ItemKind::RangedWeapon { ammo, .. } => {
                match cat.items.get(ammo.as_str()) {
                    Some(a) => {
                        match &a.kind {
                            ItemKind::Ammunition => {},
                            ItemKind::WeaknessAmmunition { .. } => {},
                            _ => {
                                report(
                                    issues,
                                    say(&["items: '", id.as_str(), "' ammo '", ammo.as_str(), "' is not an ammunition kind"]),
                                );
                            },
                        }
                    },
                    None => {
                        report(issues, say(&["items: '", id.as_str(), "' references unknown ammo '", ammo.as_str(), "'"]));
                    },
                }
            },
            _ => {},
        }
        k = k + 1;
    }
    let ghost n1 = issues@.len();
    let ghost s1 = issues@;
    let mut r: usize = 0;
    while r < cat.recipes.len()
        invariant
            r <= cat.recipes.len_spec(),
            issues@.len() >= n1,
            keeps(s1, issues@),
            n1 >= n0,
            n1 == n0 <==> forall|i: int| 0 <= i < cat.items.len_spec() ==> item_ok(cat, #[trigger] cat.items.values()[i]),
            issues@.len() == n1 <==> forall|i: int| 0 <= i < r ==> recipe_ok(cat, #[trigger] cat.recipes.values()[i]),
        decreases cat.recipes.len_spec() - r,
    {
        let (id, recipe) = cat.recipes.entry(r);
        let ghost before = issues@.len();
        let ghost before_seq = issues@;
        let prefix = say(&["recipes: '", id.as_str(), "' input '"]);
        report_unknown(issues, &recipe.inputs, &cat.items, prefix.as_str(), "' is not in items.toml");
        if !cat.items.contains_key(recipe.output.as_str()) {
            report(issues, say(&["recipes: '", id.as_str(), "' output '", recipe.output.as_str(), "' is not in items.toml"]));
        }
        if recipe.inputs.len() == 0 {
            report(issues, say(&["recipes: '", id.as_str(), "' has no inputs"]));
        }
        r = r + 1;
    }
}

// ---------------------------------------------------------------------------
// enemies
// ---------------------------------------------------------------------------
pub open spec fn enemy_ok(e: EnemyDef) -> bool {
    &&& e.health != 0
    &&& e.hit_percent <= 100
    &&& (e.ranged matches Some(r) ==> r.hit_percent <= 100 && r.range != 0)
}

pub open spec fn enemies_ok(cat: &Catalogue) -> bool {
    forall|i: int| 0 <= i < cat.enemies.len_spec() ==> enemy_ok(#[trigger] cat.enemies.values()[i])
}

fn check_enemies(cat: &Catalogue, issues: &mut Vec<String>)
    ensures
        reports(old(issues)@, final(issues)@, enemies_ok(cat)),
{
    let ghost n0 = issues@.len();
    let ghost s0 = issues@;
    let mut k: usize = 0;
    while k < cat.enemies.len()
        invariant
            k <= cat.enemies.len_spec(),
            issues@.len() >= n0,
            keeps(s0, issues@),
            issues@.len() == n0 <==> forall|i: int| 0 <= i < k ==> enemy_ok(#[trigger] cat.enemies.values()[i]),
        decreases cat.enemies.len_spec() - k,
    {
        let (id, enemy) = cat.enemies.entry(k);
        if enemy.health == 0 {
            report(issues, say(&["enemies: '", id.as_str(), "' has zero health"]));
        }
        if enemy.hit_percent > 100 {
            report(issues, say(&["enemies: '", id.as_str(), "' hit_percent above 100"]));
        }
        match &enemy.ranged {
            Some(ranged) => {
                if ranged.hit_percent > 100 || ranged.range == 0 {
                    report(issues, say(&["enemies: '", id.as_str(), "' has an invalid ranged profile"]));
                }
            },
            None => {},
        }
        k = k + 1;
    }
}

// ---------------------------------------------------------------------------
// ui
// ---------------------------------------------------------------------------
pub open spec fn ui_ok(cat: &Catalogue) -> bool {
    cat.ui.splash_intro@.len() > 0 && cat.ui.key_bindings@.len() > 0
}

fn check_ui(cat: &Catalogue, issues: &mut Vec<String>)
    ensures
        reports(old(issues)@, final(issues)@, ui_ok(cat)),
{
    if cat.ui.splash_intro.len() == 0 {
        report(issues, say(&["ui: splash_intro must have at least one paragraph"]));
    }
    if cat.ui.key_bindings.len() == 0 {
        report(issues, say(&["ui: key_bindings must not be empty"]));
    }
}

// ---------------------------------------------------------------------------
// villains
// ---------------------------------------------------------------------------
pub open spec fn is_counter(kind: ItemKind) -> bool {
    kind is WeaknessAmmunition || kind is WeaknessBlade || kind is BindingCharm
}

/// Some NPC archetype can hide a villain.
pub open spec fn some_host(cat: &Catalogue) -> bool {
    exists|i: int|
        0 <= i < cat.npcs.archetypes.len_spec() && (#[trigger] cat.npcs.archetypes.values()[i]).can_host_villain
}

pub open spec fn villain_ok(cat: &Catalogue, v: VillainDef) -> bool {
    &&& cat.items.contains(v.weakness_item@)
    &&& v.tier_behaviours@.len() >= 2
    &&& (cat.items.contains(v.weakness_item@) ==> is_counter(cat.items.lookup(v.weakness_item@).unwrap().kind))
    &&& !(v.pounce is None && v.cadence is None && v.ward is None)
    &&& match v.concealment {
        Concealment::NpcHost => some_host(cat) && !(v.pounce is None && v.ward is None),
        Concealment::DormantGrave => v.cadence is Some,
    }
    &&& (v.ward matches Some(w) ==> w.charges != 0)
    &&& !(v.affected_by_consecration && v.cadence is None)
}

pub open spec fn villains_ok(cat: &Catalogue) -> bool {
    forall|i: int| 0 <= i < cat.villains.len_spec() ==> villain_ok(cat, #[trigger] cat.villains.values()[i])
}

fn any_host(cat: &Catalogue) -> (r: bool)
    ensures
        r == some_host(cat),
{
    let mut k: usize = 0;
    while k < cat.npcs.archetypes.len()
        invariant
            k <= cat.npcs.archetypes.len_spec(),
            forall|i: int| 0 <= i < k ==> !(#[trigger] cat.npcs.archetypes.values()[i]).can_host_villain,
        decreases cat.npcs.archetypes.len_spec() - k,
    {
        let (_, npc) = cat.npcs.archetypes.entry(k);
        if npc.can_host_villain {
            return true;
        }
        k = k + 1;
    }
    false
}

fn check_one_villain(cat: &Catalogue, id: &String, villain: &VillainDef, issues: &mut Vec<String>)
    ensures
        reports(old(issues)@, final(issues)@, villain_ok(cat, *villain)),
{
    let weakness = villain.weakness_item.as_str();
    if !cat.items.contains_key(weakness) {
        report(issues, say(&["villains: '", id.as_str(), "' weakness item '", weakness, "' is not in items.toml"]));
    }
    if villain.tier_behaviours.len() < 2 {
        report(issues, say(&["villains: '", id.as_str(), "' needs enhanced behaviours for both threat tiers"]));
    }
    match cat.items.get(weakness) {
        Some(item) => {
            match &item.kind {
                ItemKind::WeaknessAmmunition { .. } => {},
                ItemKind::WeaknessBlade { .. } => {},
                ItemKind::BindingCharm => {},
                _ => {
                    report(issues, say(&["villains: '", id.as_str(), "' weakness item '", weakness, "' is not a counter kind"]));
                },
            }
        },
        None => {},
    }
    if villain.pounce.is_none() && villain.cadence.is_none() && villain.ward.is_none() {
        report(
            issues,
            say(&["villains: '", id.as_str(), "' has no pounce, cadence, or ward to make its fight distinct"]),
        );
    }
    match villain.concealment {
        Concealment::NpcHost => {
            if !any_host(cat) {
                report(issues, say(&["villains: '", id.as_str(), "' hides in an NPC but no archetype can_host_villain"]));
            }
            if villain.pounce.is_none() && villain.ward.is_none() {
                report(issues, say(&["villains: NPC-host villain '", id.as_str(), "' needs a pounce or a ward"]));
            }
        },
        Concealment::DormantGrave => {
            if villain.cadence.is_none() {
                report(issues, say(&["villains: grave villain '", id.as_str(), "' must have a vulnerability cadence"]));
            }
        },
    }
    match &villain.ward {
        Some(ward) => {
            if ward.charges == 0 {
                report(issues, say(&["villains: '", id.as_str(), "' ward has no charges"]));
            }
        },
        None => {},
    }
    if villain.affected_by_consecration && villain.cadence.is_none() {
        report(
            issues,
            say(&["villains: '", id.as_str(), "' is affected by consecration but has no cadence to override"]),
        );
    }
}

fn check_villains(cat: &Catalogue, issues: &mut Vec<String>)
    ensures
        reports(old(issues)@, final(issues)@, villains_ok(cat)),
{
    let ghost n0 = issues@.len();
    let ghost s0 = issues@;
    let mut k: usize = 0;
    while k < cat.villains.len()
        invariant
            k <= cat.villains.len_spec(),
            issues@.len() >= n0,
            keeps(s0, issues@),
            issues@.len() == n0 <==> forall|i: int| 0 <= i < k ==> villain_ok(cat, #[trigger] cat.villains.values()[i]),
        decreases cat.villains.len_spec() - k,
    {
        let (id, villain) = cat.villains.entry(k);
        check_one_villain(cat, id, villain, issues);
        k = k + 1;
    }
}

// ---------------------------------------------------------------------------
// schemes
// ---------------------------------------------------------------------------
/// Some map of the pre-emption's role offers the site kind it is performed at.
pub open spec fn preempt_placeable(cat: &Catalogue, s: SchemeDef) -> bool {
    exists|m: int, j: int|
        0 <= m < cat.maps.len_spec() && 0 <= j < cat.maps.values()[m].slots@.len()
            && cat.maps.values()[m].role == s.preempt.map_role
            && (#[trigger] cat.maps.values()[m].slots@[j]).kind == s.preempt.site
}

pub open spec fn scheme_ok(cat: &Catalogue, s: SchemeDef) -> bool {
    &&& cat.enemies.contains(s.minion_enemy@)
    &&& cat.maps.contains(s.minor_event.site_map@)
    &&& cat.maps.contains(s.major_event.site_map@)
    &&& preempt_placeable(cat, s)
    &&& s.preempt.cost != 0
}

pub open spec fn schemes_ok(cat: &Catalogue) -> bool {
    forall|i: int| 0 <= i < cat.schemes.len_spec() ==> scheme_ok(cat, #[trigger] cat.schemes.values()[i])
}

fn placeable(cat: &Catalogue, scheme: &SchemeDef) -> (r: bool)
    ensures
        r == preempt_placeable(cat, *scheme),
{
    let mut m: usize = 0;
    while m < cat.maps.len()
        invariant
            m <= cat.maps.len_spec(),
            forall|a: int, j: int|
                0 <= a < m && 0 <= j < cat.maps.values()[a].slots@.len() && cat.maps.values()[a].role
                    == scheme.preempt.map_role ==> (#[trigger] cat.maps.values()[a].slots@[j]).kind
                    != scheme.preempt.site,
        decreases cat.maps.len_spec() - m,
    {
        let (_, map) = cat.maps.entry(m);
        if map.role == scheme.preempt.map_role {
            let mut j: usize = 0;
            while j < map.slots.len()
                invariant
                    j <= map.slots.len(),
                    m < cat.maps.len_spec(),
                    *map == cat.maps.values()[m as int],
                    map.role == scheme.preempt.map_role,
                    forall|b: int| 0 <= b < j ==> (#[trigger] map.slots@[b]).kind != scheme.preempt.site,
                decreases map.slots.len() - j,
            {
                if map.slots[j].kind == scheme.preempt.site {
                    proof {
                        assert(cat.maps.values()[m as int].slots@[j as int].kind == scheme.preempt.site);
                    }
                    return true;
                }
                j = j + 1;
            }
        }
        m = m + 1;
    }
    false
}

fn check_one_scheme(cat: &Catalogue, id: &String, scheme: &SchemeDef, issues: &mut Vec<String>)
    ensures
        reports(old(issues)@, final(issues)@, scheme_ok(cat, *scheme)),
{
    if !cat.enemies.contains_key(scheme.minion_enemy.as_str()) {
        report(
            issues,
            say(&["schemes: '", id.as_str(), "' minion enemy '", scheme.minion_enemy.as_str(), "' is not in enemies.toml"]),
        );
    }
    if !cat.maps.contains_key(scheme.minor_event.site_map.as_str()) {
        report(
            issues,
            say(&["schemes: '", id.as_str(), "' minor event site map '", scheme.minor_event.site_map.as_str(), "' does not exist"]),
        );
    }
    if !cat.maps.contains_key(scheme.major_event.site_map.as_str()) {
        report(
            issues,
            say(&["schemes: '", id.as_str(), "' major event site map '", scheme.major_event.site_map.as_str(), "' does not exist"]),
        );
    }
    if !placeable(cat, scheme) {
        report(
            issues,
            say(&["schemes: '", id.as_str(), "' pre-emption needs a ", site_name(scheme.preempt.site), " site on a ",
                role_name(scheme.preempt.map_role), " map, and none exists"]),
        );
    }
    if scheme.preempt.cost == 0 {
        report(issues, say(&["schemes: '", id.as_str(), "' pre-emption must cost a point"]));
    }
}

fn check_schemes(cat: &Catalogue, issues: &mut Vec<String>)
    ensures
        reports(old(issues)@, final(issues)@, schemes_ok(cat)),
{
    let ghost n0 = issues@.len();
    let ghost s0 = issues@;
    let mut k: usize = 0;
    while k < cat.schemes.len()
        invariant
            k <= cat.schemes.len_spec(),
            issues@.len() >= n0,
            keeps(s0, issues@),
            issues@.len() == n0 <==> forall|i: int| 0 <= i < k ==> scheme_ok(cat, #[trigger] cat.schemes.values()[i]),
        decreases cat.schemes.len_spec() - k,
    {
        let (id, scheme) = cat.schemes.entry(k);
        check_one_scheme(cat, id, scheme, issues);
        k = k + 1;
    }
}

// ---------------------------------------------------------------------------
// item sources, counters and origins
// ---------------------------------------------------------------------------
/// Whether `list` names `item`.
pub open spec fn names(list: Seq<String>, item: Seq<char>) -> bool {
    texts(list).contains(item)
}

/// How many of `gs` grant `item`.
pub open spec fn gathers_granting(gs: Seq<GatherDef>, item: Seq<char>) -> nat
    decreases gs.len(),
{
    if gs.len() == 0 {
        0
    } else {
        gathers_granting(gs.drop_last(), item) + if names(gs.last().items@, item) {
            1nat
        } else {
            0nat
        }
    }
}

/// How many of `cs` hand `item` over.
pub open spec fn clues_granting(cs: Seq<ClueTemplate>, item: Seq<char>) -> nat
    decreases cs.len(),
{
    if cs.len() == 0 {
        0
    } else {
        clues_granting(cs.drop_last(), item) + if names(cs.last().grants_items@, item) {
            1nat
        } else {
            0nat
        }
    }
}

/// How many independent ways a run has to obtain `item`: gathering sites,
/// clues that hand it over, and (counted twice, since both routes share it)
/// the hunter's own starting kit.
pub open spec fn spec_item_sources(cat: &Catalogue, item: Seq<char>) -> nat {
    gathers_granting(cat.gathers.values(), item) + clues_granting(cat.clues.values(), item) + if names(
        cat.hunter.starting_items@,
        item,
    ) {
        2nat
    } else {
        0nat
    }
}

fn list_names(list: &Vec<String>, item: &str) -> (r: bool)
    ensures
        r == names(list@, item@),
{
    crate::text::list_contains(list, item)
}

fn count_gathers_granting(cat: &Catalogue, item: &str) -> (r: u128)
    ensures
        r == gathers_granting(cat.gathers.values(), item@),
        r <= usize::MAX,
{
    let mut count: u128 = 0;
    let mut k: usize = 0;
    while k < cat.gathers.len()
        invariant
            k <= cat.gathers.len_spec(),
            count <= k,
            count == gathers_granting(cat.gathers.values().take(k as int), item@),
        decreases cat.gathers.len_spec() - k,
    {
        let (_, gather) = cat.gathers.entry(k);
        proof {
            let t = cat.gathers.values().take(k + 1);
            assert(t.drop_last() =~= cat.gathers.values().take(k as int));
            assert(t.last() == cat.gathers.values()[k as int]);
        }
        if list_names(&gather.items, item) {
            count = count + 1;
        }
        k = k + 1;
    }
    proof {
        assert(cat.gathers.values().take(k as int) =~= cat.gathers.values());
    }
    count
}

fn count_clues_granting(cat: &Catalogue, item: &str) -> (r: u128)
    ensures
        r == clues_granting(cat.clues.values(), item@),
        r <= usize::MAX,
{
    let mut count: u128 = 0;
    let mut k: usize = 0;
    while k < cat.clues.len()
        invariant
            k <= cat.clues.len_spec(),
            count <= k,
            count == clues_granting(cat.clues.values().take(k as int), item@),
        decreases cat.clues.len_spec() - k,
    {
        let (_, clue) = cat.clues.entry(k);
        proof {
            let t = cat.clues.values().take(k + 1);
            assert(t.drop_last() =~= cat.clues.values().take(k as int));
            assert(t.last() == cat.clues.values()[k as int]);
        }
        if list_names(&clue.grants_items, item) {
            count = count + 1;
        }
        k = k + 1;
    }
    proof {
        assert(cat.clues.values().take(k as int) =~= cat.clues.values());
    }
    count
}

/// How many independent ways a run has to obtain `item`.
fn item_sources(cat: &Catalogue, item: &str) -> (r: u128)
    ensures
        r == spec_item_sources(cat, item@),
{
    let gathered = count_gathers_granting(cat, item);
    let from_clues = count_clues_granting(cat, item);
    let carried: u128 = if list_names(&cat.hunter.starting_items, item) {
        2
    } else {
        0
    };
    gathered + from_clues + carried
}

/// Recipe `r` is the first (in key order) whose output is `item`.
pub open spec fn first_recipe_for(cat: &Catalogue, item: Seq<char>, r: int) -> bool {
    &&& 0 <= r < cat.recipes.len_spec()
    &&& cat.recipes.values()[r].output@ == item
    &&& forall|m: int| 0 <= m < r ==> (#[trigger] cat.recipes.values()[m]).output@ != item
}

/// Every ingredient of the recipe that crafts a villain's counter has at
/// least two sources.
pub open spec fn counter_ok(cat: &Catalogue, v: VillainDef) -> bool {
    forall|r: int|
        #![trigger cat.recipes.values()[r]]
        first_recipe_for(cat, v.weakness_item@, r) ==> forall|j: int|
            0 <= j < cat.recipes.values()[r].inputs@.len() ==> spec_item_sources(
                cat,
                (#[trigger] cat.recipes.values()[r].inputs@[j])@,
            ) >= 2
}

pub open spec fn counters_ok(cat: &Catalogue) -> bool {
    forall|i: int| 0 <= i < cat.villains.len_spec() ==> counter_ok(cat, #[trigger] cat.villains.values()[i])
}

fn counter_recipe(cat: &Catalogue, item: &str) -> (r: Option<usize>)
    ensures
        r matches Some(k) ==> first_recipe_for(cat, item@, k as int),
        r is None ==> forall|m: int| 0 <= m < cat.recipes.len_spec() ==> (#[trigger] cat.recipes.values()[m]).output@ != item@,
{
    let mut k: usize = 0;
    while k < cat.recipes.len()
        invariant
            k <= cat.recipes.len_spec(),
            forall|m: int| 0 <= m < k ==> (#[trigger] cat.recipes.values()[m]).output@ != item@,
        decreases cat.recipes.len_spec() - k,
    {
        let (_, recipe) = cat.recipes.entry(k);
        if text_eq(recipe.output.as_str(), item) {
            return Some(k);
        }
        k = k + 1;
    }
    None
}

fn check_one_counter(cat: &Catalogue, villain_id: &String, villain: &VillainDef, issues: &mut Vec<String>)
    ensures
        reports(old(issues)@, final(issues)@, counter_ok(cat, *villain)),
{
    let found = counter_recipe(cat, villain.weakness_item.as_str());
    match found {
        None => {
            proof {
                assert forall|r: int| #![trigger cat.recipes.values()[r]] !first_recipe_for(cat, villain.weakness_item@, r) by {
                    if 0 <= r < cat.recipes.len_spec() {
                        assert(cat.recipes.values()[r].output@ != villain.weakness_item@);
                    }
                }
            }
        },
        Some(r) => {
            let (_, recipe) = cat.recipes.entry(r);
            let ghost n0 = issues@.len();
            let ghost s0 = issues@;
            let mut j: usize = 0;
            while j < recipe.inputs.len()
                invariant
                    j <= recipe.inputs.len(),
                    *recipe == cat.recipes.values()[r as int],
                    issues@.len() >= n0,
                    keeps(s0, issues@),
                    issues@.len() == n0 <==> forall|a: int|
                        0 <= a < j ==> spec_item_sources(cat, (#[trigger] recipe.inputs@[a])@) >= 2,
                decreases recipe.inputs.len() - j,
            {
                let input = recipe.inputs[j].as_str();
                let sources = item_sources(cat, input);
                if sources < 2 {
                    report(
                        issues,
                        say(
                            &[
                                "recipes: '",
                                recipe.name.as_str(),
                                "' is the only counter to '",
                                villain_id.as_str(),
                                "' but its ingredient '",
                                input,
                                "' has ",
                                num(sources).as_str(),
                                " source(s); it needs at least 2 so two independent routes can each craft the counter",
                            ],
                        ),
                    );
                }
                j = j + 1;
            }
            proof {
                assert forall|q: int| #![trigger cat.recipes.values()[q]] first_recipe_for(cat, villain.weakness_item@, q) implies q == r by {
                    if q < r {
                        assert(cat.recipes.values()[q].output@ != villain.weakness_item@);
                    } else if q > r {
                        assert(cat.recipes.values()[r as int].output@ != villain.weakness_item@);
                    }
                }
            }
        },
    }
}

fn check_counter_ingredients(cat: &Catalogue, issues: &mut Vec<String>)
    ensures
        reports(old(issues)@, final(issues)@, counters_ok(cat)),
{
    let ghost n0 = issues@.len();
    let ghost s0 = issues@;
    let mut k: usize = 0;
    while k < cat.villains.len()
        invariant
            k <= cat.villains.len_spec(),
            issues@.len() >= n0,
            keeps(s0, issues@),
            issues@.len() == n0 <==> forall|i: int| 0 <= i < k ==> counter_ok(cat, #[trigger] cat.villains.values()[i]),
        decreases cat.villains.len_spec() - k,
    {
        let (id, villain) = cat.villains.entry(k);
        check_one_counter(cat, id, villain, issues);
        k = k + 1;
    }
}

pub open spec fn origin_ok(cat: &Catalogue, o: OriginDef) -> bool {
    cat.items.contains(o.counter_reagent@) && spec_item_sources(cat, o.counter_reagent@) >= 2
}

/// The counter reagents of the origins, in key order.
pub open spec fn reagents(cat: &Catalogue) -> Seq<Seq<char>> {
    cat.origins.values().map_values(|o: OriginDef| o.counter_reagent@)
}

pub open spec fn origins_ok(cat: &Catalogue) -> bool {
    &&& forall|i: int| 0 <= i < cat.origins.len_spec() ==> origin_ok(cat, #[trigger] cat.origins.values()[i])
    &&& seq_distinct(reagents(cat))
}

fn check_origins(cat: &Catalogue, issues: &mut Vec<String>)
    ensures
        reports(old(issues)@, final(issues)@, origins_ok(cat)),
{
    let ghost n0 = issues@.len();
    let ghost s0 = issues@;
    let mut all: Vec<String> = Vec::new();
    let mut k: usize = 0;
    while k < cat.origins.len()
        invariant
            k <= cat.origins.len_spec(),
            issues@.len() >= n0,
            keeps(s0, issues@),
            issues@.len() == n0 <==> forall|i: int| 0 <= i < k ==> origin_ok(cat, #[trigger] cat.origins.values()[i]),
            texts(all@) =~= reagents(cat).take(k as int),
        decreases cat.origins.len_spec() - k,
    {
        let (id, origin) = cat.origins.entry(k);
        let reagent = origin.counter_reagent.as_str();
        let ghost prev = all@;
        all.push(origin.counter_reagent.clone());
        proof {
            assert(texts(all@) =~= texts(prev).push(reagent@));
            assert(reagents(cat).take(k + 1) =~= reagents(cat).take(k as int).push(reagent@));
        }
        if !cat.items.contains_key(reagent) {
            report(issues, say(&["origins: '", id.as_str(), "' counter reagent '", reagent, "' is not in items.toml"]));
        } else {
            let sources = item_sources(cat, reagent);
            if sources < 2 {
                report(
                    issues,
                    say(
                        &[
                            "origins: '",
                            id.as_str(),
                            "' counter reagent '",
                            reagent,
                            "' has ",
                            num(sources).as_str(),
                            " source(s); it needs at least 2 so two independent routes can each obtain it",
                        ],
                    ),
                );
            }
        }
        k = k + 1;
    }
    proof {
        assert(reagents(cat).take(k as int) =~= reagents(cat));
    }
    if !texts_distinct(&all) {
        report(
            issues,
            say(&["origins: every origin must demand a distinct counter reagent, otherwise reading the origin changes nothing"]),
        );
    }
}

// ---------------------------------------------------------------------------
// gathers
// ---------------------------------------------------------------------------
/// `map` has a slot with id `slot`.
pub open spec fn slot_on(map: MapTemplate, slot: Seq<char>) -> bool {
    exists|i: int| 0 <= i < map.slots@.len() && (#[trigger] map.slots@[i]).id@ == slot
}

fn has_slot(map: &MapTemplate, slot: &str) -> (r: bool)
    ensures
        r == slot_on(*map, slot@),
{
    let mut k: usize = 0;
    while k < map.slots.len()
        invariant
            k <= map.slots.len(),
            forall|i: int| 0 <= i < k ==> (#[trigger] map.slots@[i]).id@ != slot@,
        decreases map.slots.len() - k,
    {
        if text_eq(map.slots[k].id.as_str(), slot) {
            return true;
        }
        k = k + 1;
    }
    false
}

pub open spec fn discovery_ok(cat: &Catalogue, d: GatherDiscovery) -> bool {
    match d {
        GatherDiscovery::Sight => true,
        GatherDiscovery::RevealedByClue { clue } => cat.clues.contains(clue@),
        GatherDiscovery::SightOrClue { clue } => cat.clues.contains(clue@),
    }
}

pub open spec fn gather_ok(cat: &Catalogue, g: GatherDef) -> bool {
    &&& cat.maps.contains(g.map@)
    &&& slot_on(cat.maps.lookup(g.map@).unwrap(), g.slot@)
    &&& all_in(g.items@, cat.items)
    &&& g.items@.len() > 0
    &&& !(g.pool is Some && g.cost == 0)
    &&& discovery_ok(cat, g.discovery)
}

pub open spec fn gathers_ok(cat: &Catalogue) -> bool {
    &&& forall|i: int| 0 <= i < cat.gathers.len_spec() ==> gather_ok(cat, #[trigger] cat.gathers.values()[i])
    &&& gathers_granting(cat.gathers.values(), "moon-herb"@) >= 2
    &&& gathers_granting(cat.gathers.values(), "silver"@) >= 2
}

fn check_one_gather(cat: &Catalogue, id: &String, gather: &GatherDef, issues: &mut Vec<String>)
    ensures
        reports(old(issues)@, final(issues)@, gather_ok(cat, *gather)),
{
    let map = match cat.maps.get(gather.map.as_str()) {
        Some(map) => map,
        None => {
            report(issues, say(&["gathers: '", id.as_str(), "' references unknown map '", gather.map.as_str(), "'"]));
            return;
        },
    };
    if !has_slot(map, gather.slot.as_str()) {
        report(
            issues,
            say(&["gathers: '", id.as_str(), "' references unknown slot '", gather.slot.as_str(), "' on map '",
                gather.map.as_str(), "'"]),
        );
    }
    let prefix = say(&["gathers: '", id.as_str(), "' grants unknown item '"]);
    report_unknown(issues, &gather.items, &cat.items, prefix.as_str(), "'");
    if gather.items.len() == 0 {
        report(issues, say(&["gathers: '", id.as_str(), "' grants nothing"]));
    }
    if gather.pool.is_some() && gather.cost == 0 {
        report(issues, say(&["gathers: '", id.as_str(), "' names a pool but costs 0"]));
    }
    match &gather.discovery {
        GatherDiscovery::RevealedByClue { clue } => {
            if !cat.clues.contains_key(clue.as_str()) {
                report(issues, say(&["gathers: '", id.as_str(), "' revealed by unknown clue '", clue.as_str(), "'"]));
            }
        },
        GatherDiscovery::SightOrClue { clue } => {
            if !cat.clues.contains_key(clue.as_str()) {
                report(issues, say(&["gathers: '", id.as_str(), "' revealed by unknown clue '", clue.as_str(), "'"]));
            }
        },
        GatherDiscovery::Sight => {},
    }
}

fn check_supply(cat: &Catalogue, required: &str, issues: &mut Vec<String>)
    ensures
        reports(old(issues)@, final(issues)@, gathers_granting(cat.gathers.values(), required@) >= 2),
{
    let sources = count_gathers_granting(cat, required);
    if sources < 2 {
        report(
            issues,
            say(&["gathers: ingredient '", required, "' needs at least two gather sources, found ", num(sources).as_str()]),
        );
    }
}

fn check_gathers(cat: &Catalogue, issues: &mut Vec<String>)
    ensures
        reports(old(issues)@, final(issues)@, gathers_ok(cat)),
{
    let ghost n0 = issues@.len();
    let ghost s0 = issues@;
    let mut k: usize = 0;
    while k < cat.gathers.len()
        invariant
            k <= cat.gathers.len_spec(),
            issues@.len() >= n0,
            keeps(s0, issues@),
            issues@.len() == n0 <==> forall|i: int| 0 <= i < k ==> gather_ok(cat, #[trigger] cat.gathers.values()[i]),
        decreases cat.gathers.len_spec() - k,
    {
        let (id, gather) = cat.gathers.entry(k);
        check_one_gather(cat, id, gather, issues);
        k = k + 1;
    }
    // Enough raw ingredient supply must exist for every recipe path the
    // planner relies on: two draughts, one charm, and silver by two routes.
    check_supply(cat, "moon-herb", issues);
    check_supply(cat, "silver", issues);
}

// ---------------------------------------------------------------------------
// clues
// ---------------------------------------------------------------------------
/// The pool an opportunity action may be paid from.
pub open spec fn spec_pool_matches(action: OpportunityAction, pool: PoolKind) -> bool {
    match action {
        OpportunityAction::Examine | OpportunityAction::Track => pool == PoolKind::Lore,
        OpportunityAction::Gossip | OpportunityAction::Persuade | OpportunityAction::Spy => pool == PoolKind::Social,
        OpportunityAction::Commune => pool == PoolKind::Mystic,
        OpportunityAction::Force => pool == PoolKind::Physical,
        OpportunityAction::Scavenge => pool == PoolKind::Lore || pool == PoolKind::Physical,
    }
}

fn pool_matches(action: OpportunityAction, pool: PoolKind) -> (r: bool)
    ensures
        r == spec_pool_matches(action, pool),
{
    match action {
        OpportunityAction::Examine | OpportunityAction::Track => pool == PoolKind::Lore,
        OpportunityAction::Gossip | OpportunityAction::Persuade | OpportunityAction::Spy => pool == PoolKind::Social,
        OpportunityAction::Commune => pool == PoolKind::Mystic,
        OpportunityAction::Force => pool == PoolKind::Physical,
        OpportunityAction::Scavenge => pool == PoolKind::Lore || pool == PoolKind::Physical,
    }
}

/// Every text of `list` is a value on `axis`.
pub open spec fn all_on_axis(cat: &Catalogue, list: Seq<String>, axis: EvidenceAxis) -> bool {
    match axis {
        EvidenceAxis::Villain => all_in(list, cat.villains),
        EvidenceAxis::Origin => all_in(list, cat.origins),
        EvidenceAxis::Scheme => all_in(list, cat.schemes),
    }
}

/// How many values the axis has.
pub open spec fn axis_len(cat: &Catalogue, axis: EvidenceAxis) -> nat {
    match axis {
        EvidenceAxis::Villain => cat.villains.len_spec(),
        EvidenceAxis::Origin => cat.origins.len_spec(),
        EvidenceAxis::Scheme => cat.schemes.len_spec(),
    }
}

pub open spec fn claims_ok(cat: &Catalogue, c: ClueTemplate) -> bool {
    match c.category.spec_axis() {
        None => c.supports@.len() == 0 && c.rules_out@.len() == 0,
        Some(axis) => {
            &&& all_on_axis(cat, c.supports@, axis)
            &&& all_on_axis(cat, c.rules_out@, axis)
            &&& forall|j: int| 0 <= j < c.rules_out@.len() ==> !names(c.supports@, (#[trigger] c.rules_out@[j])@)
            &&& !(c.rules_out@.len() > 0 && c.rules_out@.len() >= axis_len(cat, axis))
        },
    }
}

pub open spec fn clue_ok(cat: &Catalogue, c: ClueTemplate) -> bool {
    &&& !(c.site == SiteKind::Church && c.church_slot is None)
    &&& !(c.site != SiteKind::Church && c.church_slot is Some)
    &&& all_in(c.villains@, cat.villains)
    &&& all_in(c.origins@, cat.origins)
    &&& all_in(c.schemes@, cat.schemes)
    &&& claims_ok(cat, c)
    &&& c.obscurity <= 3
    &&& spec_pool_matches(c.action, c.pool)
}

/// Clue `c` counts toward a tally of `category` in the case `v/o/s`; with
/// `sharp` set, only clues that do (or do not) discriminate count.
pub open spec fn counts_toward(
    c: ClueTemplate,
    v: Seq<char>,
    o: Seq<char>,
    s: Seq<char>,
    category: ClueCategory,
    sharp: Option<bool>,
) -> bool {
    &&& c.spec_fits(v, o, s)
    &&& c.category == category
    &&& (sharp matches Some(b) ==> c.spec_is_discriminating() == b)
}

pub open spec fn tally(
    cs: Seq<ClueTemplate>,
    v: Seq<char>,
    o: Seq<char>,
    s: Seq<char>,
    category: ClueCategory,
    sharp: Option<bool>,
) -> nat
    decreases cs.len(),
{
    if cs.len() == 0 {
        0
    } else {
        tally(cs.drop_last(), v, o, s, category, sharp) + if counts_toward(cs.last(), v, o, s, category, sharp) {
            1nat
        } else {
            0nat
        }
    }
}

/// A case composed of `v/o/s` has the raw material to be built: identity
/// clues to corroborate with, two discriminators per axis, an ambiguous
/// identity sign, a location clue and a decisive weakness clue.
pub open spec fn case_ok(cat: &Catalogue, v: Seq<char>, o: Seq<char>, s: Seq<char>) -> bool {
    let cs = cat.clues.values();
    &&& tally(cs, v, o, s, ClueCategory::Identity, None) >= 4
    &&& tally(cs, v, o, s, ClueCategory::Identity, Some(true)) >= 2
    &&& tally(cs, v, o, s, ClueCategory::OriginSign, Some(true)) >= 2
    &&& tally(cs, v, o, s, ClueCategory::SchemeSign, Some(true)) >= 2
    &&& tally(cs, v, o, s, ClueCategory::Identity, Some(false)) >= 1
    &&& tally(cs, v, o, s, ClueCategory::Location, None) >= 1
    &&& tally(cs, v, o, s, ClueCategory::Weakness, None) >= 1
}

/// Every case with villain `v` and origin `o` over the first `upto` schemes.
pub open spec fn row_ok(cat: &Catalogue, v: Seq<char>, o: Seq<char>, upto: int) -> bool {
    forall|c: int| 0 <= c < upto ==> case_ok(cat, v, o, #[trigger] cat.schemes.keys()[c])
}

/// Every case with villain `v` over the first `upto` origins.
pub open spec fn plane_ok(cat: &Catalogue, v: Seq<char>, upto: int) -> bool {
    forall|b: int| 0 <= b < upto ==> row_ok(cat, v, #[trigger] cat.origins.keys()[b], cat.schemes.len_spec() as int)
}

pub open spec fn cases_ok(cat: &Catalogue) -> bool {
    forall|a: int|
        0 <= a < cat.villains.len_spec() ==> plane_ok(cat, #[trigger] cat.villains.keys()[a], cat.origins.len_spec() as int)
}

pub open spec fn clues_ok(cat: &Catalogue) -> bool {
    &&& forall|i: int| 0 <= i < cat.clues.len_spec() ==> clue_ok(cat, #[trigger] cat.clues.values()[i])
    &&& cases_ok(cat)
}

fn report_unknown_on_axis(
    cat: &Catalogue,
    issues: &mut Vec<String>,
    list: &Vec<String>,
    axis: EvidenceAxis,
    prefix: &str,
)
    ensures
        reports(old(issues)@, final(issues)@, all_on_axis(cat, list@, axis)),
{
    let suffix = say(&["', which is not a value on the ", axis_name(axis), " axis"]);
    match axis {
        EvidenceAxis::Villain => report_unknown(issues, list, &cat.villains, prefix, suffix.as_str()),
        EvidenceAxis::Origin => report_unknown(issues, list, &cat.origins, prefix, suffix.as_str()),
        EvidenceAxis::Scheme => report_unknown(issues, list, &cat.schemes, prefix, suffix.as_str()),
    }
}

fn axis_count(cat: &Catalogue, axis: EvidenceAxis) -> (r: usize)
    ensures
        r == axis_len(cat, axis),
{
    match axis {
        EvidenceAxis::Villain => cat.villains.len(),
        EvidenceAxis::Origin => cat.origins.len(),
        EvidenceAxis::Scheme => cat.schemes.len(),
    }
}

fn check_claims(cat: &Catalogue, id: &String, clue: &ClueTemplate, issues: &mut Vec<String>)
    ensures
        reports(old(issues)@, final(issues)@, claims_ok(cat, *clue)),
{
    match clue.category.axis() {
        None => {
            if clue.supports.len() != 0 || clue.rules_out.len() != 0 {
                report(
                    issues,
                    say(&["clues: '", id.as_str(), "' is category ", category_name(clue.category),
                        ", which makes no claim, so it must not set supports/rules_out"]),
                );
            }
        },
        Some(axis) => {
            let p1 = say(&["clues: '", id.as_str(), "' supports names '"]);
            report_unknown_on_axis(cat, issues, &clue.supports, axis, p1.as_str());
            let p2 = say(&["clues: '", id.as_str(), "' rules_out names '"]);
            report_unknown_on_axis(cat, issues, &clue.rules_out, axis, p2.as_str());
            let ghost n2 = issues@.len();
            let ghost s2 = issues@;
            let mut j: usize = 0;
            while j < clue.rules_out.len()
                invariant
                    j <= clue.rules_out.len(),
                    issues@.len() >= n2,
                    keeps(s2, issues@),
                    issues@.len() == n2 <==> forall|a: int|
                        0 <= a < j ==> !names(clue.supports@, (#[trigger] clue.rules_out@[a])@),
                decreases clue.rules_out.len() - j,
            {
                let value = clue.rules_out[j].as_str();
                if list_names(&clue.supports, value) {
                    report(issues, say(&["clues: '", id.as_str(), "' both supports and rules out '", value, "'"]));
                }
                j = j + 1;
            }
            if clue.rules_out.len() != 0 && clue.rules_out.len() >= axis_count(cat, axis) {
                report(issues, say(&["clues: '", id.as_str(), "' rules out every value on its axis"]));
            }
        },
    }
}

/// The issue for a clue found at the church that names no church slot.
pub open spec fn church_message(clue: Seq<char>) -> Seq<char> {
    "clues: '"@ + clue + "' is a church clue without a church_slot"@
}

/// A church clue without a church slot.
pub open spec fn church_slot_missing(c: ClueTemplate) -> bool {
    c.site == SiteKind::Church && c.church_slot is None
}

/// Every church clue of the catalogue that names no church slot has its
/// issue among `issues` from position `from` on.
pub open spec fn church_slots_reported(issues: Seq<String>, from: int, cat: &Catalogue) -> bool {
    forall|i: int|
        0 <= i < cat.clues.len_spec() && church_slot_missing(#[trigger] cat.clues.values()[i]) ==> has_issue(
            issues,
            from,
            church_message(cat.clues.keys()[i]),
        )
}

proof fn lemma_church_kept(before: Seq<String>, after: Seq<String>, from: int, from2: int, cat: &Catalogue)
    requires
        church_slots_reported(before, from, cat),
        keeps(before, after),
        from2 <= from,
    ensures
        church_slots_reported(after, from2, cat),
{
    assert forall|i: int|
        0 <= i < cat.clues.len_spec() && church_slot_missing(#[trigger] cat.clues.values()[i]) implies has_issue(
        after,
        from2,
        church_message(cat.clues.keys()[i]),
    ) by {
        let msg = church_message(cat.clues.keys()[i]);
        lemma_issue_kept(before, after, from, msg);
        let j = choose|j: int| 0 <= j && from <= j < after.len() && #[trigger] after[j]@ == msg;
        assert(after[j]@ == msg);
    }
}

fn check_one_clue(cat: &Catalogue, id: &String, clue: &ClueTemplate, issues: &mut Vec<String>)
    ensures
        reports(old(issues)@, final(issues)@, clue_ok(cat, *clue)),
        church_slot_missing(*clue) ==> has_issue(final(issues)@, old(issues)@.len() as int, church_message(id@)),
{
    let ghost start = issues@;
    let church = clue.site == SiteKind::Church;
    if church && clue.church_slot.is_none() {
        let msg = say(&["clues: '", id.as_str(), "' is a church clue without a church_slot"]);
        proof {
            reveal_with_fuel(joined, 4);
            assert(msg@ == church_message(id@));
        }
        report(issues, msg);
        proof {
            assert(issues@[start.len() as int]@ == church_message(id@));
        }
    }
    let ghost c0 = issues@;
    if !church && clue.church_slot.is_some() {
        report(
            issues,
            say(&["clues: '", id.as_str(), "' declares a church_slot but its site is ", site_name(clue.site)]),
        );
    }
    let ghost c1 = issues@;
    let p1 = say(&["clues: '", id.as_str(), "' villains lists unknown '"]);
    report_unknown(issues, &clue.villains, &cat.villains, p1.as_str(), "'");
    let ghost c2 = issues@;
    let p2 = say(&["clues: '", id.as_str(), "' origins lists unknown '"]);
    report_unknown(issues, &clue.origins, &cat.origins, p2.as_str(), "'");
    let ghost c3 = issues@;
    let p3 = say(&["clues: '", id.as_str(), "' schemes lists unknown '"]);
    report_unknown(issues, &clue.schemes, &cat.schemes, p3.as_str(), "'");
    let ghost c4 = issues@;
    check_claims(cat, id, clue, issues);
    let ghost c5 = issues@;
    if clue.obscurity > 3 {
        report(issues, say(&["clues: '", id.as_str(), "' obscurity must be 0..=3"]));
    }
    let ghost c6 = issues@;
    if !pool_matches(clue.action, clue.pool) {
        report(
            issues,
            say(&["clues: '", id.as_str(), "' action ", action_name(clue.action), " does not match pool ",
                pool_name(clue.pool)]),
        );
    }
    proof {
        lemma_keeps_trans(c0, c1, c2);
        lemma_keeps_trans(c0, c2, c3);
        lemma_keeps_trans(c0, c3, c4);
        lemma_keeps_trans(c0, c4, c5);
        lemma_keeps_trans(c0, c5, c6);
        lemma_keeps_trans(c0, c6, issues@);
        if church_slot_missing(*clue) {
            assert(c0[start.len() as int]@ == church_message(id@));
            lemma_issue_kept(c0, issues@, start.len() as int, church_message(id@));
        }
    }
}

/// The tallies a case is judged on.
struct CaseTally {
    identity: u128,
    sharp_identity: u128,
    sharp_origin: u128,
    sharp_scheme: u128,
    soft_identity: u128,
    location: u128,
    weakness: u128,
}

fn tally_case(cat: &Catalogue, v: &str, o: &str, s: &str) -> (t: CaseTally)
    ensures
        t.identity == tally(cat.clues.values(), v@, o@, s@, ClueCategory::Identity, None),
        t.sharp_identity == tally(cat.clues.values(), v@, o@, s@, ClueCategory::Identity, Some(true)),
        t.sharp_origin == tally(cat.clues.values(), v@, o@, s@, ClueCategory::OriginSign, Some(true)),
        t.sharp_scheme == tally(cat.clues.values(), v@, o@, s@, ClueCategory::SchemeSign, Some(true)),
        t.soft_identity == tally(cat.clues.values(), v@, o@, s@, ClueCategory::Identity, Some(false)),
        t.location == tally(cat.clues.values(), v@, o@, s@, ClueCategory::Location, None),
        t.weakness == tally(cat.clues.values(), v@, o@, s@, ClueCategory::Weakness, None),
{
    let mut t = CaseTally {
        identity: 0,
        sharp_identity: 0,
        sharp_origin: 0,
        sharp_scheme: 0,
        soft_identity: 0,
        location: 0,
        weakness: 0,
    };
    let mut k: usize = 0;
    while k < cat.clues.len()
        invariant
            k <= cat.clues.len_spec(),
            t.identity <= k && t.sharp_identity <= k && t.sharp_origin <= k && t.sharp_scheme <= k,
            t.soft_identity <= k && t.location <= k && t.weakness <= k,
            t.identity == tally(cat.clues.values().take(k as int), v@, o@, s@, ClueCategory::Identity, None),
            t.sharp_identity == tally(cat.clues.values().take(k as int), v@, o@, s@, ClueCategory::Identity, Some(true)),
            t.sharp_origin == tally(cat.clues.values().take(k as int), v@, o@, s@, ClueCategory::OriginSign, Some(true)),
            t.sharp_scheme == tally(cat.clues.values().take(k as int), v@, o@, s@, ClueCategory::SchemeSign, Some(true)),
            t.soft_identity == tally(cat.clues.values().take(k as int), v@, o@, s@, ClueCategory::Identity, Some(false)),
            t.location == tally(cat.clues.values().take(k as int), v@, o@, s@, ClueCategory::Location, None),
            t.weakness == tally(cat.clues.values().take(k as int), v@, o@, s@, ClueCategory::Weakness, None),
        decreases cat.clues.len_spec() - k,
    {
        let (_, clue) = cat.clues.entry(k);
        proof {
            let tk = cat.clues.values().take(k + 1);
            assert(tk.drop_last() =~= cat.clues.values().take(k as int));
            assert(tk.last() == cat.clues.values()[k as int]);
        }
        if clue.fits(v, o, s) {
            let sharp = clue.is_discriminating();
            match clue.category {
                ClueCategory::Identity => {
                    t.identity = t.identity + 1;
                    if sharp {
                        t.sharp_identity = t.sharp_identity + 1;
                    } else {
                        t.soft_identity = t.soft_identity + 1;
                    }
                },
                ClueCategory::OriginSign => {
                    if sharp {
                        t.sharp_origin = t.sharp_origin + 1;
                    }
                },
                ClueCategory::SchemeSign => {
                    if sharp {
                        t.sharp_scheme = t.sharp_scheme + 1;
                    }
                },
                ClueCategory::Location => {
                    t.location = t.location + 1;
                },
                ClueCategory::Weakness => {
                    t.weakness = t.weakness + 1;
                },
                ClueCategory::IngredientSource => {},
            }
        }
        k = k + 1;
    }
    proof {
        assert(cat.clues.values().take(k as int) =~= cat.clues.values());
    }
    t
}

fn check_case(cat: &Catalogue, v: &str, o: &str, s: &str, issues: &mut Vec<String>)
    ensures
        reports(old(issues)@, final(issues)@, case_ok(cat, v@, o@, s@)),
{
    let t = tally_case(cat, v, o, s);
    let case = say(&[v, "/", o, "/", s]);
    if t.identity < 4 {
        report(
            issues,
            say(&["clues: case ", case.as_str(), " has only ", num(t.identity).as_str(),
                " identity clues; the generator needs at least 4"]),
        );
    }
    if t.sharp_identity < 2 {
        report(
            issues,
            say(&["clues: case ", case.as_str(), " has only ", num(t.sharp_identity).as_str(),
                " discriminating identity clue(s); every axis needs at least 2"]),
        );
    }
    if t.sharp_origin < 2 {
        report(
            issues,
            say(&["clues: case ", case.as_str(), " has only ", num(t.sharp_origin).as_str(),
                " discriminating origin clue(s); every axis needs at least 2"]),
        );
    }
    if t.sharp_scheme < 2 {
        report(
            issues,
            say(&["clues: case ", case.as_str(), " has only ", num(t.sharp_scheme).as_str(),
                " discriminating scheme clue(s); every axis needs at least 2"]),
        );
    }
    if t.soft_identity < 1 {
        report(issues, say(&["clues: case ", case.as_str(), " has no ambiguous identity sign"]));
    }
    if t.location < 1 {
        report(issues, say(&["clues: case ", case.as_str(), " has no location clue"]));
    }
    if t.weakness < 1 {
        report(issues, say(&["clues: case ", case.as_str(), " has no weakness clue"]));
    }
}

fn check_row(cat: &Catalogue, v: &str, o: &str, issues: &mut Vec<String>)
    ensures
        reports(old(issues)@, final(issues)@, row_ok(cat, v@, o@, cat.schemes.len_spec() as int)),
{
    let ghost n0 = issues@.len();
    let ghost s0 = issues@;
    let mut c: usize = 0;
    while c < cat.schemes.len()
        invariant
            c <= cat.schemes.len_spec(),
            issues@.len() >= n0,
            keeps(s0, issues@),
            issues@.len() == n0 <==> row_ok(cat, v@, o@, c as int),
        decreases cat.schemes.len_spec() - c,
    {
        let (s, _) = cat.schemes.entry(c);
        check_case(cat, v, o, s.as_str(), issues);
        proof {
            assert(row_ok(cat, v@, o@, c + 1) <==> row_ok(cat, v@, o@, c as int) && case_ok(cat, v@, o@, cat.schemes.keys()[c as int]));
        }
        c = c + 1;
    }
}

fn check_plane(cat: &Catalogue, v: &str, issues: &mut Vec<String>)
    ensures
        reports(old(issues)@, final(issues)@, plane_ok(cat, v@, cat.origins.len_spec() as int)),
{
    let ghost n0 = issues@.len();
    let ghost s0 = issues@;
    let mut b: usize = 0;
    while b < cat.origins.len()
        invariant
            b <= cat.origins.len_spec(),
            issues@.len() >= n0,
            keeps(s0, issues@),
            issues@.len() == n0 <==> plane_ok(cat, v@, b as int),
        decreases cat.origins.len_spec() - b,
    {
        let (o, _) = cat.origins.entry(b);
        check_row(cat, v, o.as_str(), issues);
        proof {
            assert(plane_ok(cat, v@, b + 1) <==> plane_ok(cat, v@, b as int) && row_ok(
                cat,
                v@,
                cat.origins.keys()[b as int],
                cat.schemes.len_spec() as int,
            ));
        }
        b = b + 1;
    }
}

fn check_cases(cat: &Catalogue, issues: &mut Vec<String>)
    ensures
        reports(old(issues)@, final(issues)@, cases_ok(cat)),
{
    let ghost n0 = issues@.len();
    let ghost s0 = issues@;
    let mut a: usize = 0;
    while a < cat.villains.len()
        invariant
            a <= cat.villains.len_spec(),
            issues@.len() >= n0,
            keeps(s0, issues@),
            issues@.len() == n0 <==> forall|x: int|
                0 <= x < a ==> plane_ok(cat, #[trigger] cat.villains.keys()[x], cat.origins.len_spec() as int),
        decreases cat.villains.len_spec() - a,
    {
        let (v, _) = cat.villains.entry(a);
        check_plane(cat, v.as_str(), issues);
        a = a + 1;
    }
}

fn check_clues(cat: &Catalogue, issues: &mut Vec<String>)
    ensures
        reports(old(issues)@, final(issues)@, clues_ok(cat)),
        church_slots_reported(final(issues)@, old(issues)@.len() as int, cat),
{
    let ghost n0 = issues@.len();
    let ghost s0 = issues@;
    let mut k: usize = 0;
    while k < cat.clues.len()
        invariant
            k <= cat.clues.len_spec(),
            issues@.len() >= n0,
            keeps(s0, issues@),
            issues@.len() == n0 <==> forall|i: int| 0 <= i < k ==> clue_ok(cat, #[trigger] cat.clues.values()[i]),
            forall|i: int|
                0 <= i < k && church_slot_missing(#[trigger] cat.clues.values()[i]) ==> has_issue(
                    issues@,
                    n0 as int,
                    church_message(cat.clues.keys()[i]),
                ),
        decreases cat.clues.len_spec() - k,
    {
        let (id, clue) = cat.clues.entry(k);
        let ghost before = issues@;
        check_one_clue(cat, id, clue, issues);
        proof {
            assert forall|i: int|
                0 <= i <= k && church_slot_missing(#[trigger] cat.clues.values()[i]) implies has_issue(
                issues@,
                n0 as int,
                church_message(cat.clues.keys()[i]),
            ) by {
                let msg = church_message(cat.clues.keys()[i]);
                if i < k {
                    lemma_issue_kept(before, issues@, n0 as int, msg);
                } else {
                    let j = choose|j: int| 0 <= j && before.len() <= j < issues@.len() && #[trigger] issues@[j]@ == msg;
                    assert(issues@[j]@ == msg);
                }
            }
        }
        k = k + 1;
    }
    let ghost done = issues@;
    check_cases(cat, issues);
    proof {
        lemma_church_kept(done, issues@, n0 as int, n0 as int, cat);
    }
}

// ---------------------------------------------------------------------------
// npcs
// ---------------------------------------------------------------------------
/// Some map has a slot with id `slot`.
pub open spec fn slot_anywhere(cat: &Catalogue, slot: Seq<char>) -> bool {
    exists|m: int| 0 <= m < cat.maps.len_spec() && slot_on(#[trigger] cat.maps.values()[m], slot)
}

pub open spec fn archetype_ok(cat: &Catalogue, n: NpcArchetype) -> bool {
    &&& n.name_pool@.len() > 0
    &&& slot_anywhere(cat, n.work_slot@)
    &&& all_in(n.secrets@, cat.npcs.secrets)
    &&& n.secrets@.len() > 0
}

pub open spec fn secret_ok(t: SecretTemplate) -> bool {
    t.false_secret == t.disproof is Some
}

pub open spec fn npcs_ok(cat: &Catalogue) -> bool {
    &&& forall|i: int|
        0 <= i < cat.npcs.archetypes.len_spec() ==> archetype_ok(cat, #[trigger] cat.npcs.archetypes.values()[i])
    &&& cat.npcs.archetypes.len_spec() >= 4
    &&& exists|i: int| 0 <= i < cat.npcs.archetypes.len_spec() && (#[trigger] cat.npcs.archetypes.values()[i]).mystical
    &&& forall|i: int| 0 <= i < cat.npcs.secrets.len_spec() ==> secret_ok(#[trigger] cat.npcs.secrets.values()[i])
    &&& cat.npcs.relationship_kinds@.len() >= 3
}

fn slot_exists(cat: &Catalogue, slot: &str) -> (r: bool)
    ensures
        r == slot_anywhere(cat, slot@),
{
    let mut m: usize = 0;
    while m < cat.maps.len()
        invariant
            m <= cat.maps.len_spec(),
            forall|a: int| 0 <= a < m ==> !slot_on(#[trigger] cat.maps.values()[a], slot@),
        decreases cat.maps.len_spec() - m,
    {
        let (_, map) = cat.maps.entry(m);
        if has_slot(map, slot) {
            return true;
        }
        m = m + 1;
    }
    false
}

fn check_one_archetype(cat: &Catalogue, id: &String, npc: &NpcArchetype, issues: &mut Vec<String>)
    ensures
        reports(old(issues)@, final(issues)@, archetype_ok(cat, *npc)),
{
    if npc.name_pool.len() == 0 {
        report(issues, say(&["npcs: archetype '", id.as_str(), "' has an empty name pool"]));
    }
    if !slot_exists(cat, npc.work_slot.as_str()) {
        report(
            issues,
            say(&["npcs: archetype '", id.as_str(), "' work slot '", npc.work_slot.as_str(), "' not found"]),
        );
    }
    let prefix = say(&["npcs: archetype '", id.as_str(), "' secret '"]);
    report_unknown(issues, &npc.secrets, &cat.npcs.secrets, prefix.as_str(), "' is unknown");
    if npc.secrets.len() == 0 {
        report(issues, say(&["npcs: archetype '", id.as_str(), "' needs at least one secret template"]));
    }
}

fn check_npcs(cat: &Catalogue, issues: &mut Vec<String>)
    ensures
        reports(old(issues)@, final(issues)@, npcs_ok(cat)),
{
    let ghost n0 = issues@.len();
    let ghost s0 = issues@;
    let mut k: usize = 0;
    let mut mystical = false;
    while k < cat.npcs.archetypes.len()
        invariant
            k <= cat.npcs.archetypes.len_spec(),
            issues@.len() >= n0,
            keeps(s0, issues@),
            issues@.len() == n0 <==> forall|i: int|
                0 <= i < k ==> archetype_ok(cat, #[trigger] cat.npcs.archetypes.values()[i]),
            mystical <==> exists|i: int| 0 <= i < k && (#[trigger] cat.npcs.archetypes.values()[i]).mystical,
        decreases cat.npcs.archetypes.len_spec() - k,
    {
        let (id, npc) = cat.npcs.archetypes.entry(k);
        check_one_archetype(cat, id, npc, issues);
        if npc.mystical {
            mystical = true;
        }
        k = k + 1;
    }
    if cat.npcs.archetypes.len() < 4 {
        report(issues, say(&["npcs: need at least 4 archetypes so three-NPC casts can vary"]));
    }
    if !mystical {
        report(issues, say(&["npcs: at least one archetype must be mystical for the favour route"]));
    }
    let ghost n1 = issues@.len();
    let ghost s1 = issues@;
    let mut s: usize = 0;
    while s < cat.npcs.secrets.len()
        invariant
            s <= cat.npcs.secrets.len_spec(),
            issues@.len() >= n1,
            keeps(s1, issues@),
            issues@.len() == n1 <==> forall|i: int| 0 <= i < s ==> secret_ok(#[trigger] cat.npcs.secrets.values()[i]),
        decreases cat.npcs.secrets.len_spec() - s,
    {
        let (id, secret) = cat.npcs.secrets.entry(s);
        if secret.false_secret && secret.disproof.is_none() {
            report(issues, say(&["npcs: false secret '", id.as_str(), "' must carry a disproof"]));
        }
        if !secret.false_secret && secret.disproof.is_some() {
            report(issues, say(&["npcs: true secret '", id.as_str(), "' must not carry a disproof"]));
        }
        s = s + 1;
    }
    if cat.npcs.relationship_kinds.len() < 3 {
        report(issues, say(&["npcs: need at least 3 relationship kinds for varied links"]));
    }
}

// ---------------------------------------------------------------------------
// grimoire
// ---------------------------------------------------------------------------
pub open spec fn grimoire_ids(cat: &Catalogue) -> Seq<Seq<char>> {
    cat.grimoire@.map_values(|e: crate::schema::GrimoireEntry| e.id@)
}

/// Every key of `map` is documented in the grimoire.
pub open spec fn documents<V>(cat: &Catalogue, map: KeyedMap<V>) -> bool {
    forall|i: int| 0 <= i < map.len_spec() ==> grimoire_ids(cat).contains(#[trigger] map.keys()[i])
}

pub open spec fn grimoire_ok(cat: &Catalogue) -> bool {
    &&& seq_distinct(grimoire_ids(cat))
    &&& documents(cat, cat.villains)
    &&& documents(cat, cat.enemies)
    &&& documents(cat, cat.origins)
    &&& documents(cat, cat.schemes)
    &&& forall|i: int|
        0 <= i < cat.villains.len_spec() ==> grimoire_ids(cat).contains((#[trigger] cat.villains.values()[i]).weakness_item@)
}

fn report_undocumented<V>(cat: &Catalogue, ids: &Vec<String>, map: &KeyedMap<V>, issues: &mut Vec<String>)
    requires
        texts(ids@) == grimoire_ids(cat),
    ensures
        reports(old(issues)@, final(issues)@, documents(cat, *map)),
{
    let ghost n0 = issues@.len();
    let ghost s0 = issues@;
    let mut k: usize = 0;
    while k < map.len()
        invariant
            k <= map.len_spec(),
            texts(ids@) == grimoire_ids(cat),
            issues@.len() >= n0,
            keeps(s0, issues@),
            issues@.len() == n0 <==> forall|i: int| 0 <= i < k ==> grimoire_ids(cat).contains(#[trigger] map.keys()[i]),
        decreases map.len_spec() - k,
    {
        let (id, _) = map.entry(k);
        if !crate::text::list_contains(ids, id.as_str()) {
            report(issues, say(&["grimoire: missing required entry '", id.as_str(), "'"]));
        }
        k = k + 1;
    }
}

fn check_grimoire(cat: &Catalogue, issues: &mut Vec<String>)
    ensures
        reports(old(issues)@, final(issues)@, grimoire_ok(cat)),
{
    let mut ids: Vec<String> = Vec::new();
    let mut k: usize = 0;
    while k < cat.grimoire.len()
        invariant
            k <= cat.grimoire.len(),
            texts(ids@) =~= grimoire_ids(cat).take(k as int),
        decreases cat.grimoire.len() - k,
    {
        let ghost prev = ids@;
        let id = cat.grimoire[k].id.clone();
        ids.push(id);
        proof {
            assert(texts(ids@) =~= texts(prev).push(id@));
            assert(grimoire_ids(cat).take(k + 1) =~= grimoire_ids(cat).take(k as int).push(id@));
        }
        k = k + 1;
    }
    proof {
        assert(grimoire_ids(cat).take(k as int) =~= grimoire_ids(cat));
    }
    if !texts_distinct(&ids) {
        report(issues, say(&["grimoire: entry ids must be unique"]));
    }
    report_undocumented(cat, &ids, &cat.villains, issues);
    report_undocumented(cat, &ids, &cat.enemies, issues);
    report_undocumented(cat, &ids, &cat.origins, issues);
    report_undocumented(cat, &ids, &cat.schemes, issues);
    let ghost n1 = issues@.len();
    let ghost s1 = issues@;
    let mut v: usize = 0;
    while v < cat.villains.len()
        invariant
            v <= cat.villains.len_spec(),
            texts(ids@) == grimoire_ids(cat),
            issues@.len() >= n1,
            keeps(s1, issues@),
            issues@.len() == n1 <==> forall|i: int|
                0 <= i < v ==> grimoire_ids(cat).contains((#[trigger] cat.villains.values()[i]).weakness_item@),
        decreases cat.villains.len_spec() - v,
    {
        let (_, villain) = cat.villains.entry(v);
        if !crate::text::list_contains(&ids, villain.weakness_item.as_str()) {
            report(issues, say(&["grimoire: missing weakness entry '", villain.weakness_item.as_str(), "'"]));
        }
        v = v + 1;
    }
}

// ---------------------------------------------------------------------------
// maps
// ---------------------------------------------------------------------------
/// The terrain the legend gives `glyph`, searching from entry `i`; the
/// first matching entry wins.
pub open spec fn legend_from(legend: Seq<(char, Terrain)>, glyph: char, i: int) -> Option<Terrain>
    decreases legend.len() - i,
{
    if i < 0 || i >= legend.len() {
        None
    } else if legend[i].0 == glyph {
        Some(legend[i].1)
    } else {
        legend_from(legend, glyph, i + 1)
    }
}

/// The terrain at `at` on a template, if `at` lies on its rows.
pub open spec fn terrain_at(m: MapTemplate, at: Coord) -> Option<Terrain> {
    terrain_xy(m, at[0] as int, at[1] as int)
}

/// The terrain at column `x`, row `y` of a template, if that lies on its
/// rows.
pub open spec fn terrain_xy(m: MapTemplate, x: int, y: int) -> Option<Terrain> {
    if 0 <= y < m.rows@.len() && 0 <= x < m.rows@[y]@.len() {
        legend_from(m.legend@, m.rows@[y]@[x], 0)
    } else {
        None
    }
}

/// A slot of `kind` may stand on this terrain.
pub open spec fn slot_terrain_ok(kind: SiteKind, t: Terrain) -> bool {
    match kind {
        SiteKind::Grave => t == Terrain::Grave,
        SiteKind::Church => t == Terrain::Altar || t == Terrain::Floor,
        SiteKind::Workstation => t == Terrain::Workstation,
        _ => spec_walkable(t) || spec_forceable(t),
    }
}

pub open spec fn rows_ok(m: MapTemplate) -> bool {
    &&& m.rows@.len() == MAP_HEIGHT
    &&& forall|y: int| 0 <= y < m.rows@.len() ==> (#[trigger] m.rows@[y])@.len() == MAP_WIDTH
    &&& forall|y: int, x: int|
        0 <= y < m.rows@.len() && 0 <= x < m.rows@[y]@.len() ==> legend_from(m.legend@, #[trigger] m.rows@[y]@[x], 0) is Some
}

pub open spec fn slot_ids(m: MapTemplate) -> Seq<Seq<char>> {
    m.slots@.map_values(|s: SlotDef| s.id@)
}

pub open spec fn slots_ok(m: MapTemplate) -> bool {
    &&& seq_distinct(slot_ids(m))
    &&& forall|i: int|
        0 <= i < m.slots@.len() ==> (terrain_at(m, (#[trigger] m.slots@[i]).at) matches Some(t) && slot_terrain_ok(
            m.slots@[i].kind,
            t,
        ))
}

pub open spec fn links_ok(cat: &Catalogue, m: MapTemplate) -> bool {
    &&& forall|i: int|
        0 <= i < m.initial_enemies@.len() ==> cat.enemies.contains((#[trigger] m.initial_enemies@[i]).enemy@) && slot_on(
            m,
            m.initial_enemies@[i].near_slot@,
        )
    &&& forall|i: int|
        0 <= i < m.exits@.len() ==> cat.maps.contains((#[trigger] m.exits@[i]).to@) && (terrain_at(m, m.exits@[i].at) matches Some(
            t,
        ) && spec_walkable(t))
}

pub open spec fn cover_ok(cat: &Catalogue, m: MapTemplate) -> bool {
    &&& (m.cover_pockets@.len() as u8) >= cat.balance.generator.min_cover_pockets_per_map
    &&& forall|i: int| 0 <= i < m.cover_pockets@.len() ==> (#[trigger] m.cover_pockets@[i]).tiles@.len() > 0
    &&& forall|i: int, j: int|
        0 <= i < m.cover_pockets@.len() && 0 <= j < m.cover_pockets@[i].tiles@.len() ==> (terrain_at(
            m,
            #[trigger] m.cover_pockets@[i].tiles@[j],
        ) matches Some(t) && spec_opaque(t))
}

pub open spec fn map_ok(cat: &Catalogue, m: MapTemplate) -> bool {
    rows_ok(m) && slots_ok(m) && links_ok(cat, m) && cover_ok(cat, m) && walls_ok(m)
}

/// The number of tiles on a map.
pub const GRID_TILES: usize = 640;

/// Whether column `x`, row `y` lies on the 32 by 20 grid.
pub open spec fn on_grid(x: int, y: int) -> bool {
    0 <= x < MAP_WIDTH && 0 <= y < MAP_HEIGHT
}

/// Where column `x`, row `y` sits in a row-major grid of flags.
pub open spec fn grid_cell(x: int, y: int) -> int {
    y * MAP_WIDTH + x
}

/// A tile the hunter can cross, or clear with force and then cross.
pub open spec fn passable(m: MapTemplate, x: int, y: int) -> bool {
    on_grid(x, y) && (terrain_xy(m, x, y) matches Some(t) && (spec_walkable(t) || spec_forceable(t)))
}

/// The flag grid `g` is set at column `x`, row `y`.
pub open spec fn lit(g: Seq<bool>, x: int, y: int) -> bool {
    on_grid(x, y) && g[grid_cell(x, y)]
}

/// Some one of the eight tiles around column `x`, row `y` is set in `g`.
pub open spec fn touches(g: Seq<bool>, x: int, y: int) -> bool {
    ||| lit(g, x - 1, y - 1)
    ||| lit(g, x, y - 1)
    ||| lit(g, x + 1, y - 1)
    ||| lit(g, x - 1, y)
    ||| lit(g, x + 1, y)
    ||| lit(g, x - 1, y + 1)
    ||| lit(g, x, y + 1)
    ||| lit(g, x + 1, y + 1)
}

/// One more step of walking: a passable tile next to a reached one is
/// reached too.
pub open spec fn spread(m: MapTemplate, g: Seq<bool>) -> Seq<bool> {
    Seq::new(
        GRID_TILES as nat,
        |i: int| g[i] || (passable(m, i % MAP_WIDTH as int, i / MAP_WIDTH as int) && touches(g, i % MAP_WIDTH as int, i / MAP_WIDTH as int)),
    )
}

/// The tiles reachable within `k` steps from column `sx`, row `sy`.
pub open spec fn reached(m: MapTemplate, sx: int, sy: int, k: nat) -> Seq<bool>
    decreases k,
{
    if k == 0 {
        Seq::new(GRID_TILES as nat, |i: int| passable(m, sx, sy) && i == grid_cell(sx, sy))
    } else {
        spread(m, reached(m, sx, sy, (k - 1) as nat))
    }
}

/// Every tile that can be walked to from the map's first exit: no walk on
/// a grid of 640 tiles needs more than 640 steps.
pub open spec fn walkable_from_entry(m: MapTemplate) -> Seq<bool> {
    reached(m, m.exits@[0].at[0] as int, m.exits@[0].at[1] as int, GRID_TILES as nat)
}

/// A slot can be reached when its tile, or one beside it, can be walked to.
pub open spec fn slot_reachable(g: Seq<bool>, at: Coord) -> bool {
    lit(g, at[0] as int, at[1] as int) || touches(g, at[0] as int, at[1] as int)
}

/// No slot is walled off from the map's first exit.
pub open spec fn walls_ok(m: MapTemplate) -> bool {
    m.exits@.len() > 0 ==> forall|i: int|
        0 <= i < m.slots@.len() ==> slot_reachable(walkable_from_entry(m), (#[trigger] m.slots@[i]).at)
}

/// Some exit of `m` leads to a map of `role`.
pub open spec fn reaches(m: MapTemplate, role: MapRole) -> bool {
    exists|i: int| 0 <= i < m.exits@.len() && MapRole::spec_from_content((#[trigger] m.exits@[i]).to@) == Some(role)
}

/// Exits name roles other than the map's own, and reach every other role.
pub open spec fn triangle_ok(m: MapTemplate) -> bool {
    &&& forall|i: int|
        0 <= i < m.exits@.len() ==> (MapRole::spec_from_content((#[trigger] m.exits@[i]).to@) matches Some(r) && r != m.role)
    &&& forall|r: MapRole| r != m.role ==> #[trigger] reaches(m, r)
}

/// The catalogue has a map `id` of the given role.
pub open spec fn required_map(cat: &Catalogue, id: Seq<char>, role: MapRole) -> bool {
    cat.maps.contains(id) && cat.maps.lookup(id).unwrap().role == role
}

pub open spec fn role_filled(cat: &Catalogue, role: MapRole) -> bool {
    templates_with_role(cat.maps.keys(), cat.maps.values(), role).len() > 0
}

pub open spec fn maps_ok(cat: &Catalogue) -> bool {
    &&& required_map(cat, "settlement"@, MapRole::Settlement)
    &&& required_map(cat, "wilderness"@, MapRole::Wilderness)
    &&& required_map(cat, "outlying"@, MapRole::OutlyingSite)
    &&& forall|i: int| 0 <= i < cat.maps.len_spec() ==> map_ok(cat, #[trigger] cat.maps.values()[i])
    &&& forall|i: int| 0 <= i < cat.maps.len_spec() ==> triangle_ok(#[trigger] cat.maps.values()[i])
    &&& forall|r: MapRole| #[trigger] role_filled(cat, r)
}

fn legend_terrain(legend: &Vec<(char, Terrain)>, glyph: char) -> (r: Option<Terrain>)
    ensures
        r == legend_from(legend@, glyph, 0),
{
    let mut k: usize = 0;
    while k < legend.len()
        invariant
            k <= legend.len(),
            legend_from(legend@, glyph, 0) == legend_from(legend@, glyph, k as int),
        decreases legend.len() - k,
    {
        if legend[k].0 == glyph {
            return Some(legend[k].1);
        }
        k = k + 1;
    }
    None
}

fn terrain_of(map: &MapTemplate, at: Coord) -> (r: Option<Terrain>)
    ensures
        r == terrain_at(*map, at),
{
    let y = at[1] as usize;
    if y < map.rows.len() {
        let row = chars_of(map.rows[y].as_str());
        let x = at[0] as usize;
        if x < row.len() {
            return legend_terrain(&map.legend, row[x]);
        }
    }
    None
}

fn glyph_text(glyph: char) -> (r: String)
    ensures
        r@ == seq![glyph],
{
    let mut out = String::new();
    push_char(&mut out, glyph);
    proof {
        assert(out@ =~= seq![glyph]);
    }
    out
}

fn coord_text(at: Coord) -> (r: String)
    ensures
        r@ == decimal(at[0] as nat) + ","@ + decimal(at[1] as nat),
{
    let x = num(at[0] as u128);
    let y = num(at[1] as u128);
    let r = say(&[x.as_str(), ",", y.as_str()]);
    proof {
        reveal_with_fuel(joined, 4);
        assert(r@ =~= decimal(at[0] as nat) + ","@ + decimal(at[1] as nat));
    }
    r
}

fn check_map_rows(id: &String, map: &MapTemplate, issues: &mut Vec<String>)
    ensures
        reports(old(issues)@, final(issues)@, rows_ok(*map)),
{
    if map.rows.len() != MAP_HEIGHT {
        report(
            issues,
            say(&["maps: '", id.as_str(), "' has ", num(map.rows.len() as u128).as_str(), " rows, expected 20"]),
        );
    }
    let ghost n1 = issues@.len();
    let ghost s1 = issues@;
    let mut y: usize = 0;
    while y < map.rows.len()
        invariant
            y <= map.rows.len(),
            issues@.len() >= n1,
            keeps(s1, issues@),
            issues@.len() == n1 <==> (forall|a: int| 0 <= a < y ==> (#[trigger] map.rows@[a])@.len() == MAP_WIDTH) && (forall|
                a: int,
                x: int,
            |
                0 <= a < y && 0 <= x < map.rows@[a]@.len() ==> legend_from(map.legend@, #[trigger] map.rows@[a]@[x], 0) is Some),
        decreases map.rows.len() - y,
    {
        let row = chars_of(map.rows[y].as_str());
        let ghost before = issues@.len();
        let ghost before_seq = issues@;
        if row.len() != MAP_WIDTH {
            report(
                issues,
                say(&["maps: '", id.as_str(), "' row ", num(y as u128).as_str(), " has ", num(row.len() as u128).as_str(),
                    " glyphs, expected 32"]),
            );
        }
        let ghost mid = issues@.len();
        let ghost mid_seq = issues@;
        let mut x: usize = 0;
        while x < row.len()
            invariant
                x <= row.len(),
                row@ == map.rows@[y as int]@,
                issues@.len() >= mid,
                keeps(mid_seq, issues@),
                issues@.len() == mid <==> forall|b: int| 0 <= b < x ==> legend_from(map.legend@, #[trigger] row@[b], 0) is Some,
            decreases row.len() - x,
        {
            if legend_terrain(&map.legend, row[x]).is_none() {
                report(
                    issues,
                    say(&["maps: '", id.as_str(), "' glyph '", glyph_text(row[x]).as_str(), "' at ", num(x as u128).as_str(), ",",
                        num(y as u128).as_str(), " not in legend"]),
                );
            }
            x = x + 1;
        }
        proof {
            assert((forall|a: int| 0 <= a < y + 1 ==> (#[trigger] map.rows@[a])@.len() == MAP_WIDTH) <==> (forall|a: int|
                0 <= a < y ==> (#[trigger] map.rows@[a])@.len() == MAP_WIDTH) && map.rows@[y as int]@.len() == MAP_WIDTH);
            assert((forall|a: int, x: int|
                0 <= a < y + 1 && 0 <= x < map.rows@[a]@.len() ==> legend_from(map.legend@, #[trigger] map.rows@[a]@[x], 0) is Some)
                <==> (forall|a: int, x: int|
                0 <= a < y && 0 <= x < map.rows@[a]@.len() ==> legend_from(map.legend@, #[trigger] map.rows@[a]@[x], 0) is Some)
                && (forall|b: int| 0 <= b < row@.len() ==> legend_from(map.legend@, #[trigger] row@[b], 0) is Some)) by {
                if forall|b: int| 0 <= b < row@.len() ==> legend_from(map.legend@, #[trigger] row@[b], 0) is Some {
                    assert forall|a: int, x: int|
                        0 <= a < y + 1 && 0 <= x < map.rows@[a]@.len() && (forall|a2: int, x2: int|
                            0 <= a2 < y && 0 <= x2 < map.rows@[a2]@.len() ==> legend_from(map.legend@, #[trigger] map.rows@[a2]@[x2], 0) is Some)
                        implies legend_from(map.legend@, map.rows@[a]@[x], 0) is Some by {
                        if a == y {
                            assert(row@[x] == map.rows@[a]@[x]);
                        }
                    }
                }
                if forall|a: int, x: int|
                    0 <= a < y + 1 && 0 <= x < map.rows@[a]@.len() ==> legend_from(map.legend@, #[trigger] map.rows@[a]@[x], 0) is Some {
                    assert forall|b: int| 0 <= b < row@.len() implies legend_from(map.legend@, #[trigger] row@[b], 0) is Some by {
                        assert(row@[b] == map.rows@[y as int]@[b]);
                    }
                }
            }
        }
        y = y + 1;
    }
}

fn check_map_slots(id: &String, map: &MapTemplate, issues: &mut Vec<String>)
    ensures
        reports(old(issues)@, final(issues)@, slots_ok(*map)),
{
    let mut ids: Vec<String> = Vec::new();
    let mut k: usize = 0;
    while k < map.slots.len()
        invariant
            k <= map.slots.len(),
            texts(ids@) =~= slot_ids(*map).take(k as int),
        decreases map.slots.len() - k,
    {
        let ghost prev = ids@;
        let slot_id = map.slots[k].id.clone();
        ids.push(slot_id);
        proof {
            assert(texts(ids@) =~= texts(prev).push(slot_id@));
            assert(slot_ids(*map).take(k + 1) =~= slot_ids(*map).take(k as int).push(slot_id@));
        }
        k = k + 1;
    }
    proof {
        assert(slot_ids(*map).take(k as int) =~= slot_ids(*map));
    }
    if !texts_distinct(&ids) {
        report(issues, say(&["maps: '", id.as_str(), "' has duplicate slot ids"]));
    }
    let ghost n1 = issues@.len();
    let ghost s1 = issues@;
    let mut j: usize = 0;
    while j < map.slots.len()
        invariant
            j <= map.slots.len(),
            issues@.len() >= n1,
            keeps(s1, issues@),
            issues@.len() == n1 <==> forall|i: int|
                0 <= i < j ==> (terrain_at(*map, (#[trigger] map.slots@[i]).at) matches Some(t) && slot_terrain_ok(
                    map.slots@[i].kind,
                    t,
                )),
        decreases map.slots.len() - j,
    {
        let slot = &map.slots[j];
        match terrain_of(map, slot.at) {
            None => {
                report(
                    issues,
                    say(&["maps: '", id.as_str(), "' slot '", slot.id.as_str(), "' is out of bounds at ",
                        coord_text(slot.at).as_str()]),
                );
            },
            Some(terrain) => {
                let ok = match slot.kind {
                    SiteKind::Grave => terrain == Terrain::Grave,
                    SiteKind::Church => terrain == Terrain::Altar || terrain == Terrain::Floor,
                    SiteKind::Workstation => terrain == Terrain::Workstation,
                    _ => is_walkable(terrain) || is_forceable(terrain),
                };
                if !ok {
                    report(
                        issues,
                        say(&["maps: '", id.as_str(), "' slot '", slot.id.as_str(), "' (", site_name(slot.kind),
                            ") sits on incompatible terrain ", terrain_name(terrain)]),
                    );
                }
            },
        }
        j = j + 1;
    }
}

fn check_map_links(cat: &Catalogue, id: &String, map: &MapTemplate, issues: &mut Vec<String>)
    ensures
        reports(old(issues)@, final(issues)@, links_ok(cat, *map)),
{
    let ghost n0 = issues@.len();
    let ghost s0 = issues@;
    let mut k: usize = 0;
    while k < map.initial_enemies.len()
        invariant
            k <= map.initial_enemies.len(),
            issues@.len() >= n0,
            keeps(s0, issues@),
            issues@.len() == n0 <==> forall|i: int|
                0 <= i < k ==> cat.enemies.contains((#[trigger] map.initial_enemies@[i]).enemy@) && slot_on(
                    *map,
                    map.initial_enemies@[i].near_slot@,
                ),
        decreases map.initial_enemies.len() - k,
    {
        let spawn = &map.initial_enemies[k];
        if !cat.enemies.contains_key(spawn.enemy.as_str()) {
            report(issues, say(&["maps: '", id.as_str(), "' spawns unknown enemy '", spawn.enemy.as_str(), "'"]));
        }
        if !has_slot(map, spawn.near_slot.as_str()) {
            report(issues, say(&["maps: '", id.as_str(), "' spawns near unknown slot '", spawn.near_slot.as_str(), "'"]));
        }
        k = k + 1;
    }
    let ghost n1 = issues@.len();
    let ghost s1 = issues@;
    let mut e: usize = 0;
    while e < map.exits.len()
        invariant
            e <= map.exits.len(),
            n1 >= n0,
            n1 == n0 <==> forall|i: int|
                0 <= i < map.initial_enemies@.len() ==> cat.enemies.contains((#[trigger] map.initial_enemies@[i]).enemy@)
                    && slot_on(*map, map.initial_enemies@[i].near_slot@),
            issues@.len() >= n1,
            keeps(s1, issues@),
            issues@.len() == n1 <==> forall|i: int|
                0 <= i < e ==> cat.maps.contains((#[trigger] map.exits@[i]).to@) && (terrain_at(*map, map.exits@[i].at) matches Some(
                    t,
                ) && spec_walkable(t)),
        decreases map.exits.len() - e,
    {
        let exit = &map.exits[e];
        if !cat.maps.contains_key(exit.to.as_str()) {
            report(issues, say(&["maps: '", id.as_str(), "' exit leads to unknown map '", exit.to.as_str(), "'"]));
        }
        let walkable = match terrain_of(map, exit.at) {
            Some(terrain) => is_walkable(terrain),
            None => false,
        };
        if !walkable {
            report(
                issues,
                say(&["maps: '", id.as_str(), "' exit to '", exit.to.as_str(), "' must sit on walkable terrain"]),
            );
        }
        e = e + 1;
    }
}

fn check_map_cover(cat: &Catalogue, id: &String, map: &MapTemplate, issues: &mut Vec<String>)
    ensures
        reports(old(issues)@, final(issues)@, cover_ok(cat, *map)),
{
    let min = cat.balance.generator.min_cover_pockets_per_map;
    #[verifier::truncate]
    let reserved = map.cover_pockets.len() as u8;
    if reserved < min {
        report(
            issues,
            say(&["maps: '", id.as_str(), "' reserves ", num(map.cover_pockets.len() as u128).as_str(),
                " cover pockets, needs at least ", num(min as u128).as_str()]),
        );
    }
    let ghost n1 = issues@.len();
    let ghost s1 = issues@;
    let mut p: usize = 0;
    while p < map.cover_pockets.len()
        invariant
            p <= map.cover_pockets.len(),
            issues@.len() >= n1,
            keeps(s1, issues@),
            issues@.len() == n1 <==> (forall|i: int| 0 <= i < p ==> (#[trigger] map.cover_pockets@[i]).tiles@.len() > 0) && (
            forall|i: int, j: int|
                0 <= i < p && 0 <= j < map.cover_pockets@[i].tiles@.len() ==> (terrain_at(
                    *map,
                    #[trigger] map.cover_pockets@[i].tiles@[j],
                ) matches Some(t) && spec_opaque(t))),
        decreases map.cover_pockets.len() - p,
    {
        let pocket = &map.cover_pockets[p];
        let ghost before = issues@.len();
        let ghost before_seq = issues@;
        if pocket.tiles.len() == 0 {
            report(issues, say(&["maps: '", id.as_str(), "' cover pocket ", num(p as u128).as_str(), " is empty"]));
        }
        let ghost mid = issues@.len();
        let ghost mid_seq = issues@;
        let mut t: usize = 0;
        while t < pocket.tiles.len()
            invariant
                t <= pocket.tiles.len(),
                *pocket == map.cover_pockets@[p as int],
                issues@.len() >= mid,
                keeps(mid_seq, issues@),
                issues@.len() == mid <==> forall|j: int|
                    0 <= j < t ==> (terrain_at(*map, #[trigger] pocket.tiles@[j]) matches Some(x) && spec_opaque(x)),
            decreases pocket.tiles.len() - t,
        {
            let opaque = match terrain_of(map, pocket.tiles[t]) {
                Some(terrain) => is_opaque(terrain),
                None => false,
            };
            if !opaque {
                report(
                    issues,
                    say(&["maps: '", id.as_str(), "' cover pocket ", num(p as u128).as_str(), " tile ",
                        coord_text(pocket.tiles[t]).as_str(), " is not opaque cover"]),
                );
            }
            t = t + 1;
        }
        proof {
            assert((forall|j: int|
                0 <= j < pocket.tiles@.len() ==> (terrain_at(*map, #[trigger] pocket.tiles@[j]) matches Some(x) && spec_opaque(x)))
                <==> (forall|j: int|
                0 <= j < map.cover_pockets@[p as int].tiles@.len() ==> (terrain_at(
                    *map,
                    #[trigger] map.cover_pockets@[p as int].tiles@[j],
                ) matches Some(x) && spec_opaque(x))));
        }
        p = p + 1;
    }
}

fn check_map_roles(id: &String, map: &MapTemplate, issues: &mut Vec<String>)
    ensures
        reports(old(issues)@, final(issues)@, triangle_ok(*map)),
{
    let ghost n0 = issues@.len();
    let ghost s0 = issues@;
    let mut reached_settlement = false;
    let mut reached_wilderness = false;
    let mut reached_outlying = false;
    let mut e: usize = 0;
    while e < map.exits.len()
        invariant
            e <= map.exits.len(),
            issues@.len() >= n0,
            keeps(s0, issues@),
            issues@.len() == n0 <==> forall|i: int|
                0 <= i < e ==> (MapRole::spec_from_content((#[trigger] map.exits@[i]).to@) matches Some(r) && r != map.role),
            reached_settlement <==> exists|i: int|
                0 <= i < e && MapRole::spec_from_content((#[trigger] map.exits@[i]).to@) == Some(MapRole::Settlement),
            reached_wilderness <==> exists|i: int|
                0 <= i < e && MapRole::spec_from_content((#[trigger] map.exits@[i]).to@) == Some(MapRole::Wilderness),
            reached_outlying <==> exists|i: int|
                0 <= i < e && MapRole::spec_from_content((#[trigger] map.exits@[i]).to@) == Some(MapRole::OutlyingSite),
        decreases map.exits.len() - e,
    {
        let exit = &map.exits[e];
        match MapRole::from_content(exit.to.as_str()) {
            None => {
                report(issues, say(&["maps: '", id.as_str(), "' has an exit to '", exit.to.as_str(), "', which is not a map role"]));
            },
            Some(role) => {
                if role == map.role {
                    report(issues, say(&["maps: '", id.as_str(), "' has an exit to its own role '", exit.to.as_str(), "'"]));
                }
                match role {
                    MapRole::Settlement => {
                        reached_settlement = true;
                    },
                    MapRole::Wilderness => {
                        reached_wilderness = true;
                    },
                    MapRole::OutlyingSite => {
                        reached_outlying = true;
                    },
                }
            },
        }
        e = e + 1;
    }
    let ghost n1 = issues@.len();
    let ghost s1 = issues@;
    if map.role != MapRole::Settlement && !reached_settlement {
        report_unreached(id, MapRole::Settlement, issues);
    }
    if map.role != MapRole::Wilderness && !reached_wilderness {
        report_unreached(id, MapRole::Wilderness, issues);
    }
    if map.role != MapRole::OutlyingSite && !reached_outlying {
        report_unreached(id, MapRole::OutlyingSite, issues);
    }
    proof {
        assert(reaches(*map, MapRole::Settlement) == reached_settlement);
        assert(reaches(*map, MapRole::Wilderness) == reached_wilderness);
        assert(reaches(*map, MapRole::OutlyingSite) == reached_outlying);
        assert((forall|r: MapRole| r != map.role ==> #[trigger] reaches(*map, r)) <==> (
            (map.role != MapRole::Settlement ==> reached_settlement)
            && (map.role != MapRole::Wilderness ==> reached_wilderness)
            && (map.role != MapRole::OutlyingSite ==> reached_outlying))) by {
            if (map.role != MapRole::Settlement ==> reached_settlement)
                && (map.role != MapRole::Wilderness ==> reached_wilderness)
                && (map.role != MapRole::OutlyingSite ==> reached_outlying) {
                assert forall|r: MapRole| r != map.role implies #[trigger] reaches(*map, r) by {
                    match r {
                        MapRole::Settlement => {},
                        MapRole::Wilderness => {},
                        MapRole::OutlyingSite => {},
                    }
                }
            }
        }
    }
}

fn report_unreached(id: &String, role: MapRole, issues: &mut Vec<String>)
    ensures
        final(issues)@.len() == old(issues)@.len() + 1,
        keeps(old(issues)@, final(issues)@),
{
    report(
        issues,
        say(&["maps: '", id.as_str(), "' has no exit to the '", role.label(),
            "' role, so the travel triangle breaks whenever this template is chosen"]),
    );
}

fn check_required_map(cat: &Catalogue, map_id: &str, role: MapRole, issues: &mut Vec<String>)
    ensures
        reports(old(issues)@, final(issues)@, required_map(cat, map_id@, role)),
{
    match cat.maps.get(map_id) {
        None => {
            report(issues, say(&["maps: required map '", map_id, "' is missing"]));
        },
        Some(map) => {
            if map.role != role {
                report(issues, say(&["maps: '", map_id, "' must have role ", role_name(role)]));
            }
        },
    }
}

fn check_role_filled(cat: &Catalogue, role: MapRole, issues: &mut Vec<String>)
    ensures
        reports(old(issues)@, final(issues)@, role_filled(cat, role)),
{
    let templates = cat.templates_for(role);
    if templates.len() == 0 {
        report(issues, say(&["maps: no template fills the '", role.label(), "' role"]));
    }
}

fn passable_grid(map: &MapTemplate) -> (g: Vec<bool>)
    ensures
        g@.len() == GRID_TILES,
        forall|i: int| 0 <= i < GRID_TILES ==> g@[i] == passable(*map, i % MAP_WIDTH as int, i / MAP_WIDTH as int),
{
    let mut g: Vec<bool> = Vec::new();
    let mut i: usize = 0;
    while i < GRID_TILES
        invariant
            i <= GRID_TILES,
            g@.len() == i,
            forall|j: int| 0 <= j < i ==> g@[j] == passable(*map, j % MAP_WIDTH as int, j / MAP_WIDTH as int),
        decreases GRID_TILES - i,
    {
        let x = i % MAP_WIDTH;
        let y = i / MAP_WIDTH;
        let at: Coord = [x as u8, y as u8];
        proof {
            assert(at[0] as int == x as int);
            assert(at[1] as int == y as int);
        }
        let open = match terrain_of(map, at) {
            Some(t) => is_walkable(t) || is_forceable(t),
            None => false,
        };
        g.push(open);
        i = i + 1;
    }
    g
}

fn lit_at(g: &Vec<bool>, x: i32, y: i32) -> (r: bool)
    requires
        g@.len() == GRID_TILES,
        -2 <= x <= 40,
        -2 <= y <= 40,
    ensures
        r == lit(g@, x as int, y as int),
{
    if 0 <= x && x < MAP_WIDTH as i32 && 0 <= y && y < MAP_HEIGHT as i32 {
        g[(y as usize) * MAP_WIDTH + (x as usize)]
    } else {
        false
    }
}

fn touches_at(g: &Vec<bool>, x: i32, y: i32) -> (r: bool)
    requires
        g@.len() == GRID_TILES,
        -1 <= x <= 39,
        -1 <= y <= 39,
    ensures
        r == touches(g@, x as int, y as int),
{
    lit_at(g, x - 1, y - 1) || lit_at(g, x, y - 1) || lit_at(g, x + 1, y - 1) || lit_at(g, x - 1, y) || lit_at(g, x + 1, y)
        || lit_at(g, x - 1, y + 1) || lit_at(g, x, y + 1) || lit_at(g, x + 1, y + 1)
}

fn spread_once(map: &MapTemplate, open: &Vec<bool>, g: &Vec<bool>) -> (n: Vec<bool>)
    requires
        g@.len() == GRID_TILES,
        open@.len() == GRID_TILES,
        forall|i: int| 0 <= i < GRID_TILES ==> open@[i] == passable(*map, i % MAP_WIDTH as int, i / MAP_WIDTH as int),
    ensures
        n@ == spread(*map, g@),
{
    let mut n: Vec<bool> = Vec::new();
    let mut i: usize = 0;
    while i < GRID_TILES
        invariant
            i <= GRID_TILES,
            g@.len() == GRID_TILES,
            open@.len() == GRID_TILES,
            forall|j: int| 0 <= j < GRID_TILES ==> open@[j] == passable(*map, j % MAP_WIDTH as int, j / MAP_WIDTH as int),
            n@.len() == i,
            forall|j: int| 0 <= j < i ==> n@[j] == spread(*map, g@)[j],
        decreases GRID_TILES - i,
    {
        let x = (i % MAP_WIDTH) as i32;
        let y = (i / MAP_WIDTH) as i32;
        let cell = g[i] || (open[i] && touches_at(g, x, y));
        n.push(cell);
        i = i + 1;
    }
    proof {
        assert(n@ =~= spread(*map, g@));
    }
    n
}

/// The issue for a slot that the map's first exit cannot reach on foot.
pub open spec fn walled_message(map: Seq<char>, slot: Seq<char>) -> Seq<char> {
    "maps: '"@ + map + "' slot '"@ + slot + "' cannot be walked to from the map's first exit"@
}

/// Every slot of `m` that its first exit cannot reach has its issue among
/// `issues` from position `from` on.
pub open spec fn walls_reported(issues: Seq<String>, from: int, id: Seq<char>, m: MapTemplate) -> bool {
    m.exits@.len() > 0 ==> forall|i: int|
        0 <= i < m.slots@.len() && !slot_reachable(walkable_from_entry(m), (#[trigger] m.slots@[i]).at)
            ==> has_issue(issues, from, walled_message(id, m.slots@[i].id@))
}

/// Every map of the catalogue has its walled-in slots reported among
/// `issues` from position `from` on.
pub open spec fn maps_walls_reported(issues: Seq<String>, from: int, cat: &Catalogue) -> bool {
    forall|i: int|
        0 <= i < cat.maps.len_spec() ==> walls_reported(issues, from, cat.maps.keys()[i], #[trigger] cat.maps.values()[i])
}

/// Adding issues loses none: what is kept is transitive.
pub proof fn lemma_keeps_trans(a: Seq<String>, b: Seq<String>, c: Seq<String>)
    requires
        keeps(a, b),
        keeps(b, c),
    ensures
        keeps(a, c),
{
    assert forall|j: int| 0 <= j < a.len() implies #[trigger] c[j] == a[j] by {
        assert(c[j] == b[j]);
    }
}

proof fn lemma_walls_kept(before: Seq<String>, after: Seq<String>, from: int, from2: int, id: Seq<char>, m: MapTemplate)
    requires
        walls_reported(before, from, id, m),
        keeps(before, after),
        from2 <= from,
    ensures
        walls_reported(after, from2, id, m),
{
    if m.exits@.len() > 0 {
        assert forall|i: int|
            0 <= i < m.slots@.len() && !slot_reachable(walkable_from_entry(m), (#[trigger] m.slots@[i]).at) implies has_issue(
            after,
            from2,
            walled_message(id, m.slots@[i].id@),
        ) by {
            let msg = walled_message(id, m.slots@[i].id@);
            lemma_issue_kept(before, after, from, msg);
            let j = choose|j: int| 0 <= j && from <= j < after.len() && #[trigger] after[j]@ == msg;
            assert(after[j]@ == msg);
        }
    }
}

proof fn lemma_maps_walls_kept(before: Seq<String>, after: Seq<String>, from: int, cat: &Catalogue)
    requires
        maps_walls_reported(before, from, cat),
        keeps(before, after),
    ensures
        maps_walls_reported(after, from, cat),
{
    assert forall|i: int| 0 <= i < cat.maps.len_spec() implies walls_reported(
        after,
        from,
        cat.maps.keys()[i],
        #[trigger] cat.maps.values()[i],
    ) by {
        lemma_walls_kept(before, after, from, from, cat.maps.keys()[i], cat.maps.values()[i]);
    }
}

fn check_map_walls(id: &String, map: &MapTemplate, issues: &mut Vec<String>)
    ensures
        reports(old(issues)@, final(issues)@, walls_ok(*map)),
        walls_reported(final(issues)@, old(issues)@.len() as int, id@, *map),
{
    if map.exits.len() == 0 {
        return;
    }
    let open = passable_grid(map);
    let sx = map.exits[0].at[0] as usize;
    let sy = map.exits[0].at[1] as usize;
    let ghost gx = map.exits@[0].at[0] as int;
    let ghost gy = map.exits@[0].at[1] as int;
    let start_open = sx < MAP_WIDTH && sy < MAP_HEIGHT && open[sy * MAP_WIDTH + sx];
    proof {
        if sx < MAP_WIDTH && sy < MAP_HEIGHT {
            let c = (sy * MAP_WIDTH + sx) as int;
            assert(c % MAP_WIDTH as int == sx as int);
            assert(c / MAP_WIDTH as int == sy as int);
        }
    }
    let mut g: Vec<bool> = Vec::new();
    let mut i: usize = 0;
    while i < GRID_TILES
        invariant
            i <= GRID_TILES,
            gx == sx && gy == sy,
            start_open == passable(*map, gx, gy),
            g@.len() == i,
            forall|j: int| 0 <= j < i ==> g@[j] == reached(*map, gx, gy, 0)[j],
        decreases GRID_TILES - i,
    {
        g.push(start_open && i == sy * MAP_WIDTH + sx);
        i = i + 1;
    }
    proof {
        assert(g@ =~= reached(*map, gx, gy, 0));
    }
    let mut k: usize = 0;
    while k < GRID_TILES
        invariant
            k <= GRID_TILES,
            open@.len() == GRID_TILES,
            forall|j: int| 0 <= j < GRID_TILES ==> open@[j] == passable(*map, j % MAP_WIDTH as int, j / MAP_WIDTH as int),
            g@ == reached(*map, gx, gy, k as nat),
            g@.len() == GRID_TILES,
        decreases GRID_TILES - k,
    {
        g = spread_once(map, &open, &g);
        k = k + 1;
    }
    let ghost n0 = issues@.len();
    let ghost s0 = issues@;
    let mut s: usize = 0;
    while s < map.slots.len()
        invariant
            s <= map.slots.len(),
            g@ == walkable_from_entry(*map),
            g@.len() == GRID_TILES,
            map.exits@.len() > 0,
            issues@.len() >= n0,
            keeps(s0, issues@),
            issues@.len() == n0 <==> forall|i: int| 0 <= i < s ==> slot_reachable(g@, (#[trigger] map.slots@[i]).at),
            forall|i: int|
                0 <= i < s && !slot_reachable(g@, (#[trigger] map.slots@[i]).at)
                    ==> has_issue(issues@, n0 as int, walled_message(id@, map.slots@[i].id@)),
        decreases map.slots.len() - s,
    {
        let ghost pre = issues@;
        let at = map.slots[s].at;
        let x = at[0] as i32;
        let y = at[1] as i32;
        if x > 39 || y > 39 || !(lit_at(&g, x, y) || touches_at(&g, x, y)) {
            proof {
                if x <= 39 && y <= 39 {
                    assert(!slot_reachable(g@, at));
                } else {
                    assert(!lit(g@, at[0] as int, at[1] as int));
                    assert(!touches(g@, at[0] as int, at[1] as int));
                }
            }
            let msg = say(&["maps: '", id.as_str(), "' slot '", map.slots[s].id.as_str(),
                "' cannot be walked to from the map's first exit"]);
            proof {
                reveal_with_fuel(joined, 6);
                assert(msg@ == walled_message(id@, map.slots@[s as int].id@));
            }
            report(issues, msg);
            proof {
                assert(issues@[pre.len() as int]@ == walled_message(id@, map.slots@[s as int].id@));
            }
        }
        proof {
            assert forall|i: int|
                0 <= i <= s && !slot_reachable(g@, (#[trigger] map.slots@[i]).at) implies has_issue(
                issues@,
                n0 as int,
                walled_message(id@, map.slots@[i].id@),
            ) by {
                if i < s {
                    lemma_issue_kept(pre, issues@, n0 as int, walled_message(id@, map.slots@[i].id@));
                } else {
                    assert(issues@[pre.len() as int]@ == walled_message(id@, map.slots@[i].id@));
                }
            }
        }
        s = s + 1;
    }
}

fn check_maps(cat: &Catalogue, issues: &mut Vec<String>)
    ensures
        reports(old(issues)@, final(issues)@, maps_ok(cat)),
        maps_walls_reported(final(issues)@, old(issues)@.len() as int, cat),
{
    let ghost first = issues@.len() as int;
    check_required_map(cat, "settlement", MapRole::Settlement, issues);
    check_required_map(cat, "wilderness", MapRole::Wilderness, issues);
    check_required_map(cat, "outlying", MapRole::OutlyingSite, issues);
    let ghost n0 = issues@.len();
    let ghost s0 = issues@;
    let mut k: usize = 0;
    while k < cat.maps.len()
        invariant
            k <= cat.maps.len_spec(),
            issues@.len() >= n0,
            keeps(s0, issues@),
            issues@.len() == n0 <==> forall|i: int| 0 <= i < k ==> map_ok(cat, #[trigger] cat.maps.values()[i]),
            first <= n0,
            forall|i: int|
                0 <= i < k ==> walls_reported(issues@, first, cat.maps.keys()[i], #[trigger] cat.maps.values()[i]),
        decreases cat.maps.len_spec() - k,
    {
        let (id, map) = cat.maps.entry(k);
        let ghost before = issues@.len();
        let ghost before_seq = issues@;
        check_map_rows(id, map, issues);
        check_map_slots(id, map, issues);
        check_map_links(cat, id, map, issues);
        check_map_cover(cat, id, map, issues);
        let ghost mid = issues@;
        check_map_walls(id, map, issues);
        proof {
            lemma_keeps_trans(before_seq, mid, issues@);
            assert forall|i: int|
                0 <= i <= k implies walls_reported(issues@, first, cat.maps.keys()[i], #[trigger] cat.maps.values()[i]) by {
                if i < k {
                    lemma_walls_kept(before_seq, issues@, first, first, cat.maps.keys()[i], cat.maps.values()[i]);
                } else {
                    lemma_walls_kept(issues@, issues@, mid.len() as int, first, id@, *map);
                }
            }
        }
        k = k + 1;
    }
    let ghost walls_done = issues@;
    // Exits name a role, not a template, because which template fills a
    // role is chosen per run. Every template must therefore reach both other
    // roles, and every role must have something to reach.
    let ghost n1 = issues@.len();
    let ghost s1 = issues@;
    let mut t: usize = 0;
    while t < cat.maps.len()
        invariant
            t <= cat.maps.len_spec(),
            n1 >= n0,
            n1 == n0 <==> forall|i: int| 0 <= i < cat.maps.len_spec() ==> map_ok(cat, #[trigger] cat.maps.values()[i]),
            issues@.len() >= n1,
            keeps(s1, issues@),
            issues@.len() == n1 <==> forall|i: int| 0 <= i < t ==> triangle_ok(#[trigger] cat.maps.values()[i]),
        decreases cat.maps.len_spec() - t,
    {
        let (id, map) = cat.maps.entry(t);
        check_map_roles(id, map, issues);
        t = t + 1;
    }
    let ghost n2 = issues@.len();
    let ghost s2 = issues@;
    check_role_filled(cat, MapRole::Settlement, issues);
    check_role_filled(cat, MapRole::Wilderness, issues);
    check_role_filled(cat, MapRole::OutlyingSite, issues);
    proof {
        assert((forall|r: MapRole| #[trigger] role_filled(cat, r)) <==> role_filled(cat, MapRole::Settlement) && role_filled(
            cat,
            MapRole::Wilderness,
        ) && role_filled(cat, MapRole::OutlyingSite)) by {
            if role_filled(cat, MapRole::Settlement) && role_filled(cat, MapRole::Wilderness) && role_filled(
                cat,
                MapRole::OutlyingSite,
            ) {
                assert forall|r: MapRole| #[trigger] role_filled(cat, r) by {
                    match r {
                        MapRole::Settlement => {},
                        MapRole::Wilderness => {},
                        MapRole::OutlyingSite => {},
                    }
                }
            }
        }
        lemma_keeps_trans(walls_done, s2, issues@);
        lemma_maps_walls_kept(walls_done, issues@, first, cat);
    }
}

/// Whether actors can stand on this terrain.
pub fn is_walkable(terrain: Terrain) -> (r: bool)
    ensures
        r == spec_walkable(terrain),
{
    match terrain {
        Terrain::Floor | Terrain::Door | Terrain::Road | Terrain::Grass | Terrain::Grave => true,
        _ => false,
    }
}

/// Whether this terrain can be cleared with a Physical-point forceful action.
pub fn is_forceable(terrain: Terrain) -> (r: bool)
    ensures
        r == spec_forceable(terrain),
{
    match terrain {
        Terrain::BarredDoor | Terrain::Rubble => true,
        _ => false,
    }
}

/// Whether this terrain blocks line of sight (and pounce lanes).
pub fn is_opaque(terrain: Terrain) -> (r: bool)
    ensures
        r == spec_opaque(terrain),
{
    match terrain {
        Terrain::Wall | Terrain::Tree | Terrain::Rubble | Terrain::BarredDoor => true,
        _ => false,
    }
}

// ---------------------------------------------------------------------------
// openings
// ---------------------------------------------------------------------------
/// The first index at or after `from` where `s` holds `c`.
pub open spec fn first_of(s: Seq<char>, c: char, from: int) -> Option<int>
    decreases s.len() - from,
{
    if from < 0 || from >= s.len() {
        None
    } else if s[from] == c {
        Some(from)
    } else {
        first_of(s, c, from + 1)
    }
}

pub open spec fn known_placeholder(p: Seq<char>) -> bool {
    p == "{npc}"@ || p == "{clue}"@ || p == "{place}"@
}

/// Scanning `s` from `pos`: each `{` up to the next `}` is a placeholder,
/// and every one found is known. An unclosed `{` ends the scan.
pub open spec fn placeholders_from(s: Seq<char>, pos: int) -> bool
    decreases s.len() - pos,
{
    if pos < 0 || pos >= s.len() {
        true
    } else {
        match first_of(s, '{', pos) {
            None => true,
            Some(start) => match first_of(s, '}', start) {
                None => true,
                Some(end) => if end < pos || end >= s.len() {
                    true
                } else {
                    known_placeholder(s.subrange(start, end + 1)) && placeholders_from(s, end + 1)
                },
            },
        }
    }
}

pub open spec fn mentions_npc(o: OpeningDef) -> bool {
    exists|j: int| 0 <= j < o.body@.len() && has_sub((#[trigger] o.body@[j]).0@, "{npc}"@)
}

pub open spec fn opening_ok(o: OpeningDef) -> bool {
    &&& !blank(o.id@)
    &&& o.body@.len() > 0
    &&& forall|j: int| 0 <= j < o.body@.len() ==> !blank((#[trigger] o.body@[j]).0@)
    &&& (o.anchor is Some) == (o.grant is Some)
    &&& !(mentions_npc(o) && o.anchor != Some(OpeningAnchor::Npc))
    &&& forall|j: int| 0 <= j < o.body@.len() ==> placeholders_from((#[trigger] o.body@[j]).0@, 0)
}

pub open spec fn opening_ids(cat: &Catalogue) -> Seq<Seq<char>> {
    cat.openings@.map_values(|o: OpeningDef| o.id@)
}

/// How many of `os` are generic hooks.
pub open spec fn generic_count(os: Seq<OpeningDef>) -> nat
    decreases os.len(),
{
    if os.len() == 0 {
        0
    } else {
        generic_count(os.drop_last()) + if os.last().spec_is_generic() {
            1nat
        } else {
            0nat
        }
    }
}

/// Some opening narrates a node of this anchor and grant.
pub open spec fn narrated(cat: &Catalogue, anchor: OpeningAnchor, grant: OpeningGrant) -> bool {
    exists|i: int| 0 <= i < cat.openings@.len() && (#[trigger] cat.openings@[i]).spec_matches(anchor, grant)
}

pub open spec fn openings_ok(cat: &Catalogue) -> bool {
    &&& forall|i: int| 0 <= i < cat.openings@.len() ==> opening_ok(#[trigger] cat.openings@[i])
    &&& seq_distinct(opening_ids(cat))
    &&& generic_count(cat.openings@) >= 2
    &&& forall|a: OpeningAnchor, g: OpeningGrant| #[trigger] narrated(cat, a, g)
}

fn find_char(s: &Vec<char>, c: char, from: usize) -> (r: Option<usize>)
    ensures
        r is None ==> first_of(s@, c, from as int) is None,
        r matches Some(i) ==> first_of(s@, c, from as int) == Some(i as int) && from <= i < s.len(),
{
    let mut k: usize = from;
    while k < s.len()
        invariant
            from <= k,
            first_of(s@, c, from as int) == first_of(s@, c, k as int),
        decreases s.len() - k,
    {
        if s[k] == c {
            return Some(k);
        }
        k = k + 1;
    }
    None
}

/// Report every unknown placeholder in `line`.
fn check_placeholders(id: &str, line: &str, issues: &mut Vec<String>)
    ensures
        reports(old(issues)@, final(issues)@, placeholders_from(line@, 0)),
{
    let chars = chars_of(line);
    let ghost n0 = issues@.len();
    let ghost s0 = issues@;
    let mut pos: usize = 0;
    loop
        invariant
            chars@ == line@,
            pos <= chars.len(),
            issues@.len() >= n0,
            keeps(s0, issues@),
            placeholders_from(line@, 0) <==> (issues@.len() == n0 && placeholders_from(line@, pos as int)),
        ensures
            issues@.len() >= n0,
            keeps(s0, issues@),
            placeholders_from(line@, 0) <==> issues@.len() == n0,
        decreases chars.len() - pos,
    {
        let start = match find_char(&chars, '{', pos) {
            Some(start) => start,
            None => {
                break;
            },
        };
        let end = match find_char(&chars, '}', start) {
            Some(end) => end,
            None => {
                break;
            },
        };
        let mut piece: Vec<char> = Vec::new();
        let mut k: usize = start;
        while k <= end
            invariant
                start <= k <= end + 1,
                end < chars.len(),
                piece@ == chars@.subrange(start as int, k as int),
            decreases end + 1 - k,
        {
            piece.push(chars[k]);
            proof {
                assert(chars@.subrange(start as int, k + 1) =~= chars@.subrange(start as int, k as int).push(chars@[k as int]));
            }
            k = k + 1;
        }
        let placeholder = text_from_chars(&piece);
        let known = text_eq(placeholder.as_str(), "{npc}") || text_eq(placeholder.as_str(), "{clue}") || text_eq(
            placeholder.as_str(),
            "{place}",
        );
        if !known {
            report(issues, say(&["openings: '", id, "' uses unknown placeholder '", placeholder.as_str(), "'"]));
        }
        pos = end + 1;
    }
}

/// An opening keyed on one of anchor and grant but not the other.
pub open spec fn half_keyed(o: OpeningDef) -> bool {
    (o.anchor is Some) != (o.grant is Some)
}

/// The issue for a half-keyed opening.
pub open spec fn half_keyed_message(opening: Seq<char>) -> Seq<char> {
    "openings: '"@ + opening + "' sets only one of anchor/grant; an opening is keyed on both or on neither"@
}

/// Every half-keyed opening of the catalogue has its issue among `issues`
/// from position `from` on.
pub open spec fn half_keyed_reported(issues: Seq<String>, from: int, cat: &Catalogue) -> bool {
    forall|i: int|
        0 <= i < cat.openings@.len() && half_keyed(#[trigger] cat.openings@[i]) ==> has_issue(
            issues,
            from,
            half_keyed_message(cat.openings@[i].id@),
        )
}

proof fn lemma_half_keyed_kept(before: Seq<String>, after: Seq<String>, from: int, from2: int, cat: &Catalogue)
    requires
        half_keyed_reported(before, from, cat),
        keeps(before, after),
        from2 <= from,
    ensures
        half_keyed_reported(after, from2, cat),
{
    assert forall|i: int| 0 <= i < cat.openings@.len() && half_keyed(#[trigger] cat.openings@[i]) implies has_issue(
        after,
        from2,
        half_keyed_message(cat.openings@[i].id@),
    ) by {
        let msg = half_keyed_message(cat.openings@[i].id@);
        lemma_issue_kept(before, after, from, msg);
        let j = choose|j: int| 0 <= j && from <= j < after.len() && #[trigger] after[j]@ == msg;
        assert(after[j]@ == msg);
    }
}

fn check_one_opening(opening: &OpeningDef, issues: &mut Vec<String>)
    ensures
        reports(old(issues)@, final(issues)@, opening_ok(*opening)),
        half_keyed(*opening) ==> has_issue(final(issues)@, old(issues)@.len() as int, half_keyed_message(opening.id@)),
{
    let ghost start = issues@;
    let id = opening.id.as_str();
    if is_blank(id) {
        report(issues, say(&["openings: an entry has an empty id"]));
    }
    if opening.body.len() == 0 {
        report(issues, say(&["openings: '", id, "' has no prose"]));
    }
    let ghost n1 = issues@.len();
    let ghost s1 = issues@;
    let mut k: usize = 0;
    while k < opening.body.len()
        invariant
            k <= opening.body.len(),
            issues@.len() >= n1,
            keeps(s1, issues@),
            issues@.len() == n1 <==> forall|j: int| 0 <= j < k ==> !blank((#[trigger] opening.body@[j]).0@),
        decreases opening.body.len() - k,
    {
        if is_blank(opening.body[k].as_str()) {
            report(issues, say(&["openings: '", id, "' has an empty paragraph"]));
        }
        k = k + 1;
    }
    let ghost c0 = issues@;
    if opening.anchor.is_some() != opening.grant.is_some() {
        let msg = say(&["openings: '", id, "' sets only one of anchor/grant; an opening is keyed on both or on neither"]);
        proof {
            reveal_with_fuel(joined, 4);
            assert(msg@ == half_keyed_message(opening.id@));
        }
        report(issues, msg);
        proof {
            assert(issues@[c0.len() as int]@ == half_keyed_message(opening.id@));
        }
    }
    let ghost c1 = issues@;
    let mut mentions = false;
    let mut m: usize = 0;
    while m < opening.body.len()
        invariant
            m <= opening.body.len(),
            mentions <==> exists|j: int| 0 <= j < m && has_sub((#[trigger] opening.body@[j]).0@, "{npc}"@),
        decreases opening.body.len() - m,
    {
        if contains_text(opening.body[m].as_str(), "{npc}") {
            mentions = true;
        }
        m = m + 1;
    }
    let on_person = match opening.anchor {
        Some(OpeningAnchor::Npc) => true,
        _ => false,
    };
    if mentions && !on_person {
        report(issues, say(&["openings: '", id, "' uses {npc} but is not anchored on a person"]));
    }
    let ghost n2 = issues@.len();
    let ghost s2 = issues@;
    let mut p: usize = 0;
    while p < opening.body.len()
        invariant
            p <= opening.body.len(),
            issues@.len() >= n2,
            keeps(s2, issues@),
            issues@.len() == n2 <==> forall|j: int| 0 <= j < p ==> placeholders_from((#[trigger] opening.body@[j]).0@, 0),
        decreases opening.body.len() - p,
    {
        check_placeholders(id, opening.body[p].as_str(), issues);
        p = p + 1;
    }
    proof {
        lemma_keeps_trans(c1, s2, issues@);
        if half_keyed(*opening) {
            assert(c1[c0.len() as int]@ == half_keyed_message(opening.id@));
            assert(c0.len() >= start.len());
            lemma_issue_kept(c1, issues@, start.len() as int, half_keyed_message(opening.id@));
        }
    }
}

fn check_narrated(cat: &Catalogue, anchor: OpeningAnchor, grant: OpeningGrant, issues: &mut Vec<String>)
    ensures
        reports(old(issues)@, final(issues)@, narrated(cat, anchor, grant)),
{
    let mut k: usize = 0;
    while k < cat.openings.len()
        invariant
            k <= cat.openings.len(),
            forall|i: int| 0 <= i < k ==> !(#[trigger] cat.openings@[i]).spec_matches(anchor, grant),
        decreases cat.openings.len() - k,
    {
        if cat.openings[k].matches(anchor, grant) {
            return;
        }
        k = k + 1;
    }
    report(
        issues,
        say(&["openings: nothing narrates a ", anchor_name(anchor), "-anchored ", grant_name(grant),
            " node banked before play"]),
    );
}

fn check_openings(cat: &Catalogue, issues: &mut Vec<String>)
    ensures
        reports(old(issues)@, final(issues)@, openings_ok(cat)),
        half_keyed_reported(final(issues)@, old(issues)@.len() as int, cat),
{
    let ghost n0 = issues@.len();
    let ghost s0 = issues@;
    let mut ids: Vec<String> = Vec::new();
    let mut generic: u128 = 0;
    let mut k: usize = 0;
    while k < cat.openings.len()
        invariant
            k <= cat.openings.len(),
            issues@.len() >= n0,
            keeps(s0, issues@),
            issues@.len() == n0 <==> forall|i: int| 0 <= i < k ==> opening_ok(#[trigger] cat.openings@[i]),
            texts(ids@) =~= opening_ids(cat).take(k as int),
            generic <= k,
            generic == generic_count(cat.openings@.take(k as int)),
            forall|i: int|
                0 <= i < k && half_keyed(#[trigger] cat.openings@[i]) ==> has_issue(
                    issues@,
                    n0 as int,
                    half_keyed_message(cat.openings@[i].id@),
                ),
        decreases cat.openings.len() - k,
    {
        let opening = &cat.openings[k];
        let ghost before = issues@;
        check_one_opening(opening, issues);
        proof {
            assert forall|i: int|
                0 <= i <= k && half_keyed(#[trigger] cat.openings@[i]) implies has_issue(
                issues@,
                n0 as int,
                half_keyed_message(cat.openings@[i].id@),
            ) by {
                let msg = half_keyed_message(cat.openings@[i].id@);
                if i < k {
                    lemma_issue_kept(before, issues@, n0 as int, msg);
                } else {
                    let j = choose|j: int| 0 <= j && before.len() <= j < issues@.len() && #[trigger] issues@[j]@ == msg;
                    assert(issues@[j]@ == msg);
                }
            }
        }
        let ghost prev = ids@;
        let id = opening.id.clone();
        ids.push(id);
        proof {
            assert(texts(ids@) =~= texts(prev).push(id@));
            assert(opening_ids(cat).take(k + 1) =~= opening_ids(cat).take(k as int).push(id@));
            assert(cat.openings@.take(k + 1).drop_last() =~= cat.openings@.take(k as int));
        }
        if opening.is_generic() {
            generic = generic + 1;
        }
        k = k + 1;
    }
    proof {
        assert(opening_ids(cat).take(k as int) =~= opening_ids(cat));
        assert(cat.openings@.take(k as int) =~= cat.openings@);
    }
    let ghost d0 = issues@;
    if !texts_distinct(&ids) {
        report(issues, say(&["openings: ids must be unique"]));
    }
    if generic < 2 {
        report(
            issues,
            say(&["openings: only ", num(generic).as_str(),
                " generic hook(s); most runs bank nothing, so they need more than one way to begin"]),
        );
    }
    // Every bankable node kind needs prose. The planner will not bank
    // anything outside this set, so this is the whole space.
    let ghost n3 = issues@.len();
    let ghost s3 = issues@;
    check_narrated(cat, OpeningAnchor::Tile, OpeningGrant::Items, issues);
    let ghost e1 = issues@;
    check_narrated(cat, OpeningAnchor::Tile, OpeningGrant::Lead, issues);
    let ghost e2 = issues@;
    check_narrated(cat, OpeningAnchor::Tile, OpeningGrant::Identity, issues);
    let ghost e3 = issues@;
    check_narrated(cat, OpeningAnchor::Npc, OpeningGrant::Items, issues);
    let ghost e4 = issues@;
    check_narrated(cat, OpeningAnchor::Npc, OpeningGrant::Lead, issues);
    let ghost e5 = issues@;
    check_narrated(cat, OpeningAnchor::Npc, OpeningGrant::Identity, issues);
    proof {
        lemma_keeps_trans(d0, s3, e1);
        lemma_keeps_trans(d0, e1, e2);
        lemma_keeps_trans(d0, e2, e3);
        lemma_keeps_trans(d0, e3, e4);
        lemma_keeps_trans(d0, e4, e5);
        lemma_keeps_trans(d0, e5, issues@);
        lemma_half_keyed_kept(d0, issues@, n0 as int, n0 as int, cat);
    }
    proof {
        let all = narrated(cat, OpeningAnchor::Tile, OpeningGrant::Items) && narrated(cat, OpeningAnchor::Tile, OpeningGrant::Lead)
            && narrated(cat, OpeningAnchor::Tile, OpeningGrant::Identity) && narrated(cat, OpeningAnchor::Npc, OpeningGrant::Items)
            && narrated(cat, OpeningAnchor::Npc, OpeningGrant::Lead) && narrated(cat, OpeningAnchor::Npc, OpeningGrant::Identity);
        assert((forall|a: OpeningAnchor, g: OpeningGrant| #[trigger] narrated(cat, a, g)) <==> all) by {
            if all {
                assert forall|a: OpeningAnchor, g: OpeningGrant| #[trigger] narrated(cat, a, g) by {
                    match a {
                        OpeningAnchor::Tile => match g {
                            OpeningGrant::Items => {},
                            OpeningGrant::Lead => {},
                            OpeningGrant::Identity => {},
                        },
                        OpeningAnchor::Npc => match g {
                            OpeningGrant::Items => {},
                            OpeningGrant::Lead => {},
                            OpeningGrant::Identity => {},
                        },
                    }
                }
            }
        }
    }
}

// ---------------------------------------------------------------------------
// conditions
// ---------------------------------------------------------------------------
/// An opening carries the id `id`.
pub open spec fn opening_named(cat: &Catalogue, id: Seq<char>) -> bool {
    exists|i: int| 0 <= i < cat.openings@.len() && (#[trigger] cat.openings@[i]).id@ == id
}

pub open spec fn condition_ok(cat: &Catalogue, c: ConditionDef) -> bool {
    &&& !blank(c.id@)
    &&& c.body@.len() > 0
    &&& forall|j: int| 0 <= j < c.body@.len() ==> !blank((#[trigger] c.body@[j]).0@)
    &&& forall|j: int|
        0 <= j < c.body@.len() ==> !has_sub((#[trigger] c.body@[j]).0@, "{npc}"@) && !has_sub(c.body@[j].0@, "{clue}"@)
    &&& !opening_named(cat, c.id@)
}

pub open spec fn condition_ids(cat: &Catalogue) -> Seq<Seq<char>> {
    cat.conditions@.map_values(|c: ConditionDef| c.id@)
}

/// On `axis`: how many conditions, how many bite, how many help, and how
/// many are pure texture.
pub open spec fn axis_counts(cs: Seq<ConditionDef>, axis: ConditionAxis) -> (nat, nat, nat, nat)
    decreases cs.len(),
{
    if cs.len() == 0 {
        (0, 0, 0, 0)
    } else {
        let (n, b, h, t) = axis_counts(cs.drop_last(), axis);
        let c = cs.last();
        if c.axis == axis {
            (
                n + 1,
                if c.spec_is_bane() { b + 1 } else { b },
                if c.spec_is_boon() { h + 1 } else { h },
                if c.spec_is_cosmetic() { t + 1 } else { t },
            )
        } else {
            (n, b, h, t)
        }
    }
}

pub open spec fn axis_ok(cat: &Catalogue, axis: ConditionAxis) -> bool {
    let (n, banes, boons, texture) = axis_counts(cat.conditions@, axis);
    n >= 3 && banes == 1 && boons == 1 && texture >= 3
}

pub open spec fn conditions_ok(cat: &Catalogue) -> bool {
    &&& forall|i: int| 0 <= i < cat.conditions@.len() ==> condition_ok(cat, #[trigger] cat.conditions@[i])
    &&& seq_distinct(condition_ids(cat))
    &&& forall|a: ConditionAxis| #[trigger] axis_ok(cat, a)
}

fn shares_opening_id(cat: &Catalogue, id: &str) -> (r: bool)
    ensures
        r == opening_named(cat, id@),
{
    let mut k: usize = 0;
    while k < cat.openings.len()
        invariant
            k <= cat.openings.len(),
            forall|i: int| 0 <= i < k ==> (#[trigger] cat.openings@[i]).id@ != id@,
        decreases cat.openings.len() - k,
    {
        if text_eq(cat.openings[k].id.as_str(), id) {
            return true;
        }
        k = k + 1;
    }
    false
}

fn check_one_condition(cat: &Catalogue, condition: &ConditionDef, issues: &mut Vec<String>)
    ensures
        reports(old(issues)@, final(issues)@, condition_ok(cat, *condition)),
{
    let id = condition.id.as_str();
    if is_blank(id) {
        report(issues, say(&["conditions: an entry has an empty id"]));
    }
    if condition.body.len() == 0 {
        report(issues, say(&["conditions: '", id, "' has no prose"]));
    }
    let ghost n1 = issues@.len();
    let ghost s1 = issues@;
    let mut k: usize = 0;
    while k < condition.body.len()
        invariant
            k <= condition.body.len(),
            issues@.len() >= n1,
            keeps(s1, issues@),
            issues@.len() == n1 <==> (forall|j: int| 0 <= j < k ==> !blank((#[trigger] condition.body@[j]).0@)) && (forall|j: int|
                0 <= j < k ==> !has_sub((#[trigger] condition.body@[j]).0@, "{npc}"@) && !has_sub(
                    condition.body@[j].0@,
                    "{clue}"@,
                )),
        decreases condition.body.len() - k,
    {
        let line = condition.body[k].as_str();
        if is_blank(line) {
            report(issues, say(&["conditions: '", id, "' has an empty paragraph"]));
        }
        // A condition is drawn whether or not a node was banked, so it has
        // no clue and no informant to name.
        if contains_text(line, "{npc}") {
            report(
                issues,
                say(&["conditions: '", id,
                    "' uses {npc}, but a condition is drawn independently of whether anything was banked"]),
            );
        }
        if contains_text(line, "{clue}") {
            report(
                issues,
                say(&["conditions: '", id,
                    "' uses {clue}, but a condition is drawn independently of whether anything was banked"]),
            );
        }
        k = k + 1;
    }
    if shares_opening_id(cat, id) {
        report(issues, say(&["conditions: '", id, "' shares an id with an opening"]));
    }
}

fn check_axis(cat: &Catalogue, axis: ConditionAxis, issues: &mut Vec<String>)
    ensures
        reports(old(issues)@, final(issues)@, axis_ok(cat, axis)),
{
    let mut n: u128 = 0;
    let mut banes: u128 = 0;
    let mut boons: u128 = 0;
    let mut texture: u128 = 0;
    let mut k: usize = 0;
    while k < cat.conditions.len()
        invariant
            k <= cat.conditions.len(),
            n <= k && banes <= k && boons <= k && texture <= k,
            (n as nat, banes as nat, boons as nat, texture as nat) == axis_counts(cat.conditions@.take(k as int), axis),
        decreases cat.conditions.len() - k,
    {
        let c = &cat.conditions[k];
        proof {
            assert(cat.conditions@.take(k + 1).drop_last() =~= cat.conditions@.take(k as int));
        }
        if c.axis == axis {
            n = n + 1;
            if c.is_bane() {
                banes = banes + 1;
            }
            if c.is_boon() {
                boons = boons + 1;
            }
            if c.is_cosmetic() {
                texture = texture + 1;
            }
        }
        k = k + 1;
    }
    proof {
        assert(cat.conditions@.take(k as int) =~= cat.conditions@);
    }
    let name = condition_axis_name(axis);
    if n < 3 {
        report(
            issues,
            say(&["conditions: axis ", name, " has only ", num(n).as_str(),
                " entries; an axis worth drawing from needs at least three"]),
        );
    }
    // Every run draws one condition per axis and shapes the set: one axis
    // supplies the bane, another the boon, the rest texture. So an axis
    // needs exactly one of each to draw from, whichever role it is given.
    if banes != 1 {
        report(
            issues,
            say(&["conditions: axis ", name, " has ", num(banes).as_str(),
                " conditions that bite; it needs exactly one, since any axis may be the one that bites this run"]),
        );
    }
    if boons != 1 {
        report(
            issues,
            say(&["conditions: axis ", name, " has ", num(boons).as_str(),
                " conditions that help; it needs exactly one, since any axis may be the one that helps this run"]),
        );
    }
    if texture < 3 {
        report(
            issues,
            say(&["conditions: axis ", name, " needs at least three neutral entries; two axes are texture every run"]),
        );
    }
}

fn check_conditions(cat: &Catalogue, issues: &mut Vec<String>)
    ensures
        reports(old(issues)@, final(issues)@, conditions_ok(cat)),
{
    let ghost n0 = issues@.len();
    let ghost s0 = issues@;
    let mut ids: Vec<String> = Vec::new();
    let mut k: usize = 0;
    while k < cat.conditions.len()
        invariant
            k <= cat.conditions.len(),
            issues@.len() >= n0,
            keeps(s0, issues@),
            issues@.len() == n0 <==> forall|i: int| 0 <= i < k ==> condition_ok(cat, #[trigger] cat.conditions@[i]),
            texts(ids@) =~= condition_ids(cat).take(k as int),
        decreases cat.conditions.len() - k,
    {
        let condition = &cat.conditions[k];
        check_one_condition(cat, condition, issues);
        let ghost prev = ids@;
        let id = condition.id.clone();
        ids.push(id);
        proof {
            assert(texts(ids@) =~= texts(prev).push(id@));
            assert(condition_ids(cat).take(k + 1) =~= condition_ids(cat).take(k as int).push(id@));
        }
        k = k + 1;
    }
    proof {
        assert(condition_ids(cat).take(k as int) =~= condition_ids(cat));
    }
    if !texts_distinct(&ids) {
        report(issues, say(&["conditions: ids must be unique"]));
    }
    check_axis(cat, ConditionAxis::Season, issues);
    check_axis(cat, ConditionAxis::Reception, issues);
    check_axis(cat, ConditionAxis::Hour, issues);
    check_axis(cat, ConditionAxis::Provenance, issues);
    proof {
        let all = axis_ok(cat, ConditionAxis::Season) && axis_ok(cat, ConditionAxis::Reception) && axis_ok(
            cat,
            ConditionAxis::Hour,
        ) && axis_ok(cat, ConditionAxis::Provenance);
        assert((forall|a: ConditionAxis| #[trigger] axis_ok(cat, a)) <==> all) by {
            if all {
                assert forall|a: ConditionAxis| #[trigger] axis_ok(cat, a) by {
                    match a {
                        ConditionAxis::Season => {},
                        ConditionAxis::Reception => {},
                        ConditionAxis::Hour => {},
                        ConditionAxis::Provenance => {},
                    }
                }
            }
        }
    }
}

// ---------------------------------------------------------------------------
// strings
// ---------------------------------------------------------------------------
/// The ids of the key bindings, keys then action, in order.
pub open spec fn binding_ids(bs: Seq<KeyBinding>) -> Seq<Seq<char>>
    decreases bs.len(),
{
    if bs.len() == 0 {
        seq![]
    } else {
        binding_ids(bs.drop_last()).push(bs.last().keys.0@).push(bs.last().action.0@)
    }
}

/// The ids the first `n` clues name: name, prompt and reveal, clue by clue.
pub open spec fn clue_ids(clues: Seq<ClueTemplate>, n: int) -> Seq<Seq<char>>
    decreases n,
{
    if n <= 0 {
        seq![]
    } else {
        let c = clues[n - 1];
        clue_ids(clues, n - 1).push(c.name.0@).push(c.prompt.0@).push(c.reveal.0@)
    }
}

/// The labels of the first `n` clues' ids: the clue's id and the field.
pub open spec fn clue_labels(keys: Seq<Seq<char>>, n: int) -> Seq<Seq<char>>
    decreases n,
{
    if n <= 0 {
        seq![]
    } else {
        let k = keys[n - 1];
        clue_labels(keys, n - 1).push("clues."@ + k + ".name"@).push("clues."@ + k + ".prompt"@).push(
            "clues."@ + k + ".reveal"@,
        )
    }
}

/// Every string id the catalogue references, in the order they are listed.
pub open spec fn referenced(cat: &Catalogue) -> Seq<Seq<char>> {
    seq![cat.ui.splash_title.0@] + cat.ui.splash_intro@.map_values(|id: StringId| id.0@) + binding_ids(
        cat.ui.key_bindings@,
    ) + clue_ids(cat.clues.values(), cat.clues.len_spec() as int)
}

/// The labels of the key bindings' ids, in the order they are listed.
pub open spec fn binding_labels(n: nat) -> Seq<Seq<char>>
    decreases n,
{
    if n == 0 {
        seq![]
    } else {
        let b = (n - 1) as nat;
        binding_labels(b).push("ui.key_bindings["@ + decimal(b) + "].keys"@).push(
            "ui.key_bindings["@ + decimal(b) + "].action"@,
        )
    }
}

/// The label of each referenced id: the field it was read from.
pub open spec fn reference_labels(cat: &Catalogue) -> Seq<Seq<char>> {
    seq!["ui.splash_title"@] + Seq::new(
        cat.ui.splash_intro@.len(),
        |i: int| "ui.splash_intro["@ + decimal(i as nat) + "]"@,
    ) + binding_labels(cat.ui.key_bindings@.len()) + clue_labels(cat.clues.keys(), cat.clues.len_spec() as int)
}

/// Every `StringId` the catalogue references, paired with a label naming
/// where it came from.
///
/// Written out by hand rather than derived: it is the list that the resolve
/// check reads, and being able to grep for a field here is worth more than
/// the boilerplate it saves.
pub fn referenced_ids(cat: &Catalogue) -> (r: Vec<(String, &StringId)>)
    ensures
        r@.map_values(|p: (String, &StringId)| p.1.0@) == referenced(cat),
        r@.map_values(|p: (String, &StringId)| p.0@) == reference_labels(cat),
{
    let mut ids: Vec<(String, &StringId)> = Vec::new();
    let title = say(&["ui.splash_title"]);
    proof {
        reveal_with_fuel(joined, 2);
        assert(title@ =~= "ui.splash_title"@);
    }
    ids.push((title, &cat.ui.splash_title));
    let ghost intro_labels = |i: int| "ui.splash_intro["@ + decimal(i as nat) + "]"@;
    let mut k: usize = 0;
    while k < cat.ui.splash_intro.len()
        invariant
            k <= cat.ui.splash_intro.len(),
            intro_labels == (|i: int| "ui.splash_intro["@ + decimal(i as nat) + "]"@),
            ids@.map_values(|p: (String, &StringId)| p.1.0@) =~= seq![cat.ui.splash_title.0@]
                + cat.ui.splash_intro@.take(k as int).map_values(|id: StringId| id.0@),
            ids@.map_values(|p: (String, &StringId)| p.0@) =~= seq!["ui.splash_title"@] + Seq::new(k as nat, intro_labels),
        decreases cat.ui.splash_intro.len() - k,
    {
        let label = say(&["ui.splash_intro[", num(k as u128).as_str(), "]"]);
        proof {
            reveal_with_fuel(joined, 4);
            assert(label@ =~= "ui.splash_intro["@ + decimal(k as nat) + "]"@);
        }
        let ghost prev = ids@;
        ids.push((label, &cat.ui.splash_intro[k]));
        proof {
            assert(ids@.map_values(|p: (String, &StringId)| p.1.0@) =~= prev.map_values(|p: (String, &StringId)| p.1.0@).push(
                cat.ui.splash_intro@[k as int].0@,
            ));
            assert(ids@.map_values(|p: (String, &StringId)| p.0@) =~= prev.map_values(|p: (String, &StringId)| p.0@).push(
                label@,
            ));
            assert(Seq::new((k + 1) as nat, intro_labels) =~= Seq::new(k as nat, intro_labels).push(intro_labels(k as int)));
            assert(cat.ui.splash_intro@.take(k + 1) =~= cat.ui.splash_intro@.take(k as int).push(cat.ui.splash_intro@[k as int]));
        }
        k = k + 1;
    }
    proof {
        assert(cat.ui.splash_intro@.take(k as int) =~= cat.ui.splash_intro@);
    }
    let ghost head = ids@.map_values(|p: (String, &StringId)| p.1.0@);
    let ghost label_head = ids@.map_values(|p: (String, &StringId)| p.0@);
    let mut b: usize = 0;
    while b < cat.ui.key_bindings.len()
        invariant
            b <= cat.ui.key_bindings.len(),
            head == seq![cat.ui.splash_title.0@] + cat.ui.splash_intro@.map_values(|id: StringId| id.0@),
            label_head == seq!["ui.splash_title"@] + Seq::new(cat.ui.splash_intro@.len(), intro_labels),
            intro_labels == (|i: int| "ui.splash_intro["@ + decimal(i as nat) + "]"@),
            ids@.map_values(|p: (String, &StringId)| p.1.0@) =~= head + binding_ids(cat.ui.key_bindings@.take(b as int)),
            ids@.map_values(|p: (String, &StringId)| p.0@) =~= label_head + binding_labels(b as nat),
        decreases cat.ui.key_bindings.len() - b,
    {
        let binding = &cat.ui.key_bindings[b];
        let keys_label = say(&["ui.key_bindings[", num(b as u128).as_str(), "].keys"]);
        let action_label = say(&["ui.key_bindings[", num(b as u128).as_str(), "].action"]);
        proof {
            reveal_with_fuel(joined, 4);
            assert(keys_label@ =~= "ui.key_bindings["@ + decimal(b as nat) + "].keys"@);
            assert(action_label@ =~= "ui.key_bindings["@ + decimal(b as nat) + "].action"@);
        }
        let ghost prev = ids@;
        let ghost keys_text = keys_label@;
        let ghost action_text = action_label@;
        ids.push((keys_label, &binding.keys));
        ids.push((action_label, &binding.action));
        proof {
            assert(ids@.map_values(|p: (String, &StringId)| p.1.0@) =~= prev.map_values(|p: (String, &StringId)| p.1.0@).push(
                binding.keys.0@,
            ).push(binding.action.0@));
            assert(ids@.map_values(|p: (String, &StringId)| p.0@) =~= prev.map_values(|p: (String, &StringId)| p.0@).push(
                keys_text,
            ).push(action_text));
            assert(cat.ui.key_bindings@.take(b + 1).last() == *binding);
            assert(cat.ui.key_bindings@.take(b + 1).drop_last() =~= cat.ui.key_bindings@.take(b as int));
        }
        b = b + 1;
    }
    proof {
        assert(cat.ui.key_bindings@.take(b as int) =~= cat.ui.key_bindings@);
        assert(Seq::new(cat.ui.splash_intro@.len(), intro_labels) =~= Seq::new(
            cat.ui.splash_intro@.len(),
            |i: int| "ui.splash_intro["@ + decimal(i as nat) + "]"@,
        ));
    }
    let ghost ui_ids = ids@.map_values(|p: (String, &StringId)| p.1.0@);
    let ghost ui_labels = ids@.map_values(|p: (String, &StringId)| p.0@);
    let mut c: usize = 0;
    while c < cat.clues.len()
        invariant
            c <= cat.clues.len_spec(),
            ui_ids == seq![cat.ui.splash_title.0@] + cat.ui.splash_intro@.map_values(|id: StringId| id.0@) + binding_ids(
                cat.ui.key_bindings@,
            ),
            ui_labels == seq!["ui.splash_title"@] + Seq::new(
                cat.ui.splash_intro@.len(),
                |i: int| "ui.splash_intro["@ + decimal(i as nat) + "]"@,
            ) + binding_labels(cat.ui.key_bindings@.len()),
            ids@.map_values(|p: (String, &StringId)| p.1.0@) =~= ui_ids + clue_ids(cat.clues.values(), c as int),
            ids@.map_values(|p: (String, &StringId)| p.0@) =~= ui_labels + clue_labels(cat.clues.keys(), c as int),
        decreases cat.clues.len_spec() - c,
    {
        let (key, clue) = cat.clues.entry(c);
        let name_label = say(&["clues.", key.as_str(), ".name"]);
        let prompt_label = say(&["clues.", key.as_str(), ".prompt"]);
        let reveal_label = say(&["clues.", key.as_str(), ".reveal"]);
        proof {
            reveal_with_fuel(joined, 4);
            assert(name_label@ =~= "clues."@ + key@ + ".name"@);
            assert(prompt_label@ =~= "clues."@ + key@ + ".prompt"@);
            assert(reveal_label@ =~= "clues."@ + key@ + ".reveal"@);
        }
        let ghost prev = ids@;
        let ghost texts3 = seq![name_label@, prompt_label@, reveal_label@];
        ids.push((name_label, &clue.name));
        ids.push((prompt_label, &clue.prompt));
        ids.push((reveal_label, &clue.reveal));
        proof {
            assert(ids@.map_values(|p: (String, &StringId)| p.1.0@) =~= prev.map_values(|p: (String, &StringId)| p.1.0@).push(
                clue.name.0@,
            ).push(clue.prompt.0@).push(clue.reveal.0@));
            assert(ids@.map_values(|p: (String, &StringId)| p.0@) =~= prev.map_values(|p: (String, &StringId)| p.0@).push(
                texts3[0],
            ).push(texts3[1]).push(texts3[2]));
            assert(*clue == cat.clues.values()[c as int]);
            assert(key@ == cat.clues.keys()[c as int]);
        }
        c = c + 1;
    }
    ids
}

pub open spec fn strings_ok(cat: &Catalogue) -> bool {
    &&& forall|i: int| 0 <= i < referenced(cat).len() ==> cat.strings.english(#[trigger] referenced(cat)[i]) is Some
    &&& forall|m: int|
        0 <= m < cat.strings.spec_ids().len() ==> !blank((#[trigger] cat.strings.spec_rows().values()[m]).context@)
}

/// The issue for a field that names a string id the table lacks.
pub open spec fn unknown_id_message(label: Seq<char>, id: Seq<char>) -> Seq<char> {
    "strings: "@ + label + " references unknown string id '"@ + id + "'"@
}

/// Every referenced string id that the table lacks has its issue, naming
/// the field and the id, among `issues` from position `from` on.
pub open spec fn unknown_ids_reported(issues: Seq<String>, from: int, cat: &Catalogue) -> bool {
    forall|i: int|
        0 <= i < referenced(cat).len() && cat.strings.english(#[trigger] referenced(cat)[i]) is None ==> has_issue(
            issues,
            from,
            unknown_id_message(reference_labels(cat)[i], referenced(cat)[i]),
        )
}

fn check_strings(cat: &Catalogue, issues: &mut Vec<String>)
    ensures
        reports(old(issues)@, final(issues)@, strings_ok(cat)),
        unknown_ids_reported(final(issues)@, old(issues)@.len() as int, cat),
{
    let ids = referenced_ids(cat);
    let ghost n0 = issues@.len();
    let ghost s0 = issues@;
    let mut k: usize = 0;
    while k < ids.len()
        invariant
            k <= ids.len(),
            ids@.map_values(|p: (String, &StringId)| p.1.0@) == referenced(cat),
            ids@.map_values(|p: (String, &StringId)| p.0@) == reference_labels(cat),
            issues@.len() >= n0,
            keeps(s0, issues@),
            issues@.len() == n0 <==> forall|i: int| 0 <= i < k ==> cat.strings.english(#[trigger] referenced(cat)[i]) is Some,
            forall|i: int|
                0 <= i < k && cat.strings.english(#[trigger] referenced(cat)[i]) is None ==> has_issue(
                    issues@,
                    n0 as int,
                    unknown_id_message(reference_labels(cat)[i], referenced(cat)[i]),
                ),
        decreases ids.len() - k,
    {
        let (label, id) = (&ids[k].0, ids[k].1);
        let ghost before = issues@;
        proof {
            assert(referenced(cat)[k as int] == id.0@);
            assert(reference_labels(cat)[k as int] == label@);
        }
        if cat.strings.try_get(id.as_str()).is_none() {
            let msg = say(&["strings: ", label.as_str(), " references unknown string id '", id.as_str(), "'"]);
            proof {
                reveal_with_fuel(joined, 6);
                assert(msg@ == unknown_id_message(label@, id.0@));
            }
            report(issues, msg);
            proof {
                assert(issues@[before.len() as int]@ == unknown_id_message(label@, id.0@));
            }
        }
        proof {
            assert forall|i: int|
                0 <= i <= k && cat.strings.english(#[trigger] referenced(cat)[i]) is None implies has_issue(
                issues@,
                n0 as int,
                unknown_id_message(reference_labels(cat)[i], referenced(cat)[i]),
            ) by {
                let msg = unknown_id_message(reference_labels(cat)[i], referenced(cat)[i]);
                if i < k {
                    lemma_issue_kept(before, issues@, n0 as int, msg);
                } else {
                    assert(issues@[before.len() as int]@ == msg);
                }
            }
        }
        k = k + 1;
    }
    let ghost ids_done = issues@;
    // A row nobody can read is a row nobody should be asked to translate.
    let rows = cat.strings.rows();
    let ghost n1 = issues@.len();
    let ghost s1 = issues@;
    let mut m: usize = 0;
    while m < rows.len()
        invariant
            m <= rows.len(),
            rows.len() == cat.strings.spec_ids().len(),
            forall|a: int|
                0 <= a < rows.len() ==> (#[trigger] rows@[a]).0@ == cat.strings.spec_ids()[a] && *rows@[a].1
                    == cat.strings.spec_rows().values()[a],
            n1 >= n0,
            n1 == n0 <==> forall|i: int| 0 <= i < referenced(cat).len() ==> cat.strings.english(#[trigger] referenced(cat)[i]) is Some,
            issues@.len() >= n1,
            keeps(s1, issues@),
            issues@.len() == n1 <==> forall|a: int|
                0 <= a < m ==> !blank((#[trigger] cat.strings.spec_rows().values()[a]).context@),
        decreases rows.len() - m,
    {
        let (id, row) = rows[m];
        proof {
            assert(*rows@[m as int].1 == cat.strings.spec_rows().values()[m as int]);
        }
        if is_blank(row.context.as_str()) {
            report(issues, say(&["strings: '", id, "' has no context note"]));
        }
        m = m + 1;
    }
    proof {
        assert forall|i: int|
            0 <= i < referenced(cat).len() && cat.strings.english(#[trigger] referenced(cat)[i]) is None implies has_issue(
            issues@,
            n0 as int,
            unknown_id_message(reference_labels(cat)[i], referenced(cat)[i]),
        ) by {
            lemma_issue_kept(ids_done, issues@, n0 as int, unknown_id_message(reference_labels(cat)[i], referenced(cat)[i]));
        }
    }
}

// ---------------------------------------------------------------------------
// the whole catalogue
// ---------------------------------------------------------------------------
/// Every cross-reference and content contract the catalogue must meet.
pub open spec fn catalogue_valid(cat: &Catalogue) -> bool {
    &&& balance_ok(cat)
    &&& hunters_ok(cat)
    &&& items_and_recipes_ok(cat)
    &&& enemies_ok(cat)
    &&& villains_ok(cat)
    &&& origins_ok(cat)
    &&& counters_ok(cat)
    &&& schemes_ok(cat)
    &&& clues_ok(cat)
    &&& npcs_ok(cat)
    &&& maps_ok(cat)
    &&& gathers_ok(cat)
    &&& grimoire_ok(cat)
    &&& ui_ok(cat)
    &&& openings_ok(cat)
    &&& conditions_ok(cat)
    &&& strings_ok(cat)
}

/// Validate the whole catalogue, returning every issue found: none exactly
/// when every rule holds. A slot walled off from its map's first exit, a
/// church clue without a church slot, an opening keyed on only one of
/// anchor and grant, and a field naming a string id the table lacks are
/// each reported in their own words, naming what broke.
pub fn validate(cat: &Catalogue) -> (issues: Vec<String>)
    ensures
        issues@.len() == 0 <==> catalogue_valid(cat),
        maps_walls_reported(issues@, 0, cat),
        church_slots_reported(issues@, 0, cat),
        unknown_ids_reported(issues@, 0, cat),
        half_keyed_reported(issues@, 0, cat),
        balance_orders_reported(issues@, 0, cat),
{
    let mut issues: Vec<String> = Vec::new();
    check_balance(cat, &mut issues);
    let ghost z0 = issues@;
    check_hunter(cat, &mut issues);
    let ghost z1 = issues@;
    check_items_and_recipes(cat, &mut issues);
    let ghost z2 = issues@;
    check_enemies(cat, &mut issues);
    let ghost z3 = issues@;
    check_villains(cat, &mut issues);
    let ghost z4 = issues@;
    check_origins(cat, &mut issues);
    let ghost z5 = issues@;
    check_counter_ingredients(cat, &mut issues);
    let ghost z6 = issues@;
    check_schemes(cat, &mut issues);
    let ghost z7 = issues@;
    check_clues(cat, &mut issues);
    proof {
        lemma_keeps_trans(z0, z1, z2);
        lemma_keeps_trans(z0, z2, z3);
        lemma_keeps_trans(z0, z3, z4);
        lemma_keeps_trans(z0, z4, z5);
        lemma_keeps_trans(z0, z5, z6);
        lemma_keeps_trans(z0, z6, z7);
        lemma_keeps_trans(z0, z7, issues@);
        lemma_balance_kept(z0, issues@, 0, cat);
    }
    let ghost b0 = issues@;
    check_npcs(cat, &mut issues);
    let ghost b1 = issues@;
    check_maps(cat, &mut issues);
    let ghost a0 = issues@;
    check_gathers(cat, &mut issues);
    let ghost a1 = issues@;
    check_grimoire(cat, &mut issues);
    let ghost a2 = issues@;
    check_ui(cat, &mut issues);
    let ghost a3 = issues@;
    check_openings(cat, &mut issues);
    let ghost a4 = issues@;
    let ghost o0 = a3;
    check_conditions(cat, &mut issues);
    let ghost a5 = issues@;
    check_strings(cat, &mut issues);
    proof {
        lemma_keeps_trans(a0, a1, a2);
        lemma_keeps_trans(a0, a2, a3);
        lemma_keeps_trans(a0, a3, a4);
        lemma_keeps_trans(a0, a4, a5);
        lemma_keeps_trans(a0, a5, issues@);
        lemma_maps_walls_kept(a0, issues@, 0, cat);
        lemma_keeps_trans(b0, b1, a0);
        lemma_keeps_trans(b0, a0, issues@);
        lemma_church_kept(b0, issues@, 0, 0, cat);
        lemma_keeps_trans(a4, a5, issues@);
        lemma_half_keyed_kept(a4, issues@, o0.len() as int, 0, cat);
        lemma_keeps_trans(b0, issues@, issues@);
        lemma_balance_kept(b0, issues@, 0, cat);
    }
    issues
}

} // verus!
