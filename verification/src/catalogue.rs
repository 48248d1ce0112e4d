//! The content catalogue: every authored table a run is generated and
//! played against.
use vstd::prelude::*;

use crate::keyed::{lemma_keys_ascending, KeyedMap};
use crate::schema::{
    Balance, ClueTemplate, ConditionDef, EnemyDef, EventDef, GatherDef, GrimoireEntry, HunterDef,
    ItemDef, MachineDef, ManoeuvreDef, MapRole, MapTemplate, NpcCatalogue, OpeningDef, OriginDef,
    RecipeDef, SchemeDef, SignatureDef, UiText, VillainDef,
};
use crate::strings::{StringId, StringTable};
use crate::text::{chars_of, lemma_text_lt_irreflexive, push_text, text_eq, text_from_chars, text_lt, texts, text_owned};
use crate::validate::{
    catalogue_valid, church_slots_reported, half_keyed_reported, maps_walls_reported, unknown_ids_reported, validate,
};

verus! {

/// Why content could not be loaded.
#[derive(Debug, Clone)]
pub enum ContentError {
    /// A content file failed to parse.
    Parse { file: String, message: String },
    /// A required content file is missing.
    MissingFile(String),
    /// No hunter has the requested id.
    UnknownHunter(String),
    /// Validation found problems; every one is listed.
    Invalid { issues: Vec<String> },
}

/// The lines of `issues`, one after another, each but the first after a
/// newline.
pub open spec fn joined_lines(issues: Seq<String>) -> Seq<char>
    decreases issues.len(),
{
    if issues.len() == 0 {
        seq![]
    } else if issues.len() == 1 {
        issues[0]@
    } else {
        joined_lines(issues.drop_last()) + "\n"@ + issues.last()@
    }
}

/// What a content error says.
pub open spec fn error_text(e: ContentError) -> Seq<char> {
    match e {
        ContentError::Parse { file, message } => "content file '"@ + file@ + "' failed to parse: "@ + message@,
        ContentError::MissingFile(file) => "missing content file '"@ + file@ + "'"@,
        ContentError::UnknownHunter(id) => "no hunter with id '"@ + id@ + "'"@,
        ContentError::Invalid { issues } => "content validation failed:\n"@ + joined_lines(issues@),
    }
}

impl ContentError {
    /// The explanation shown for this error.
    pub fn message(&self) -> (r: String)
        ensures
            r@ == error_text(*self),
    {
        let mut out = String::new();
        match self {
            ContentError::Parse { file, message } => {
                push_text(&mut out, "content file '");
                push_text(&mut out, file.as_str());
                push_text(&mut out, "' failed to parse: ");
                push_text(&mut out, message.as_str());
            },
            ContentError::MissingFile(file) => {
                push_text(&mut out, "missing content file '");
                push_text(&mut out, file.as_str());
                push_text(&mut out, "'");
            },
            ContentError::UnknownHunter(id) => {
                push_text(&mut out, "no hunter with id '");
                push_text(&mut out, id.as_str());
                push_text(&mut out, "'");
            },
            ContentError::Invalid { issues } => {
                push_text(&mut out, "content validation failed:\n");
                let ghost head = out@;
                let mut k: usize = 0;
                while k < issues.len()
                    invariant
                        k <= issues.len(),
                        out@ == head + joined_lines(issues@.take(k as int)),
                    decreases issues.len() - k,
                {
                    proof {
                        assert(issues@.take(k + 1).drop_last() =~= issues@.take(k as int));
                        if k == 0 {
                            assert(issues@.take(0) =~= Seq::<String>::empty());
                        }
                    }
                    if k > 0 {
                        push_text(&mut out, "\n");
                    }
                    push_text(&mut out, issues[k].as_str());
                    proof {
                        assert(out@ =~= head + joined_lines(issues@.take(k + 1)));
                    }
                    k = k + 1;
                }
                proof {
                    assert(issues@.take(k as int) =~= issues@);
                }
            },
        }
        proof {
            assert(out@ =~= error_text(*self));
        }
        out
    }
}

/// The fully parsed, cross-validated content catalogue.
#[derive(Debug, Clone)]
pub struct Catalogue {
    pub balance: Balance,
    /// The hunter this run is being generated and played for. Everything
    /// downstream reads this rather than asking which hunter was chosen, so a
    /// catalogue instance is per-run.
    pub hunter: HunterDef,
    /// Id of the selected hunter, carried into the share code.
    pub hunter_id: String,
    /// Every selectable hunter, keyed by id.
    pub hunters: KeyedMap<HunterDef>,
    pub enemies: KeyedMap<EnemyDef>,
    pub villains: KeyedMap<VillainDef>,
    pub origins: KeyedMap<OriginDef>,
    pub schemes: KeyedMap<SchemeDef>,
    pub items: KeyedMap<ItemDef>,
    pub recipes: KeyedMap<RecipeDef>,
    pub clues: KeyedMap<ClueTemplate>,
    pub npcs: NpcCatalogue,
    pub maps: KeyedMap<MapTemplate>,
    pub gathers: KeyedMap<GatherDef>,
    pub grimoire: Vec<GrimoireEntry>,
    pub ui: UiText,
    pub openings: Vec<OpeningDef>,
    pub conditions: Vec<ConditionDef>,
    pub machines: KeyedMap<MachineDef>,
    pub events: KeyedMap<EventDef>,
    /// The localisation table every id above resolves through.
    pub strings: StringTable,
}

fn copy_id(id: &StringId) -> (r: StringId)
    ensures
        r.0@ == id.0@,
{
    StringId(id.0.clone())
}

fn copy_text(s: &String) -> (r: String)
    ensures
        r@ == s@,
{
    s.clone()
}

fn copy_texts(v: &Vec<String>) -> (r: Vec<String>)
    ensures
        texts(r@) == texts(v@),
{
    let mut out: Vec<String> = Vec::new();
    let mut k: usize = 0;
    while k < v.len()
        invariant
            k <= v.len(),
            out.len() == k,
            forall|m: int| 0 <= m < k ==> (#[trigger] out@[m])@ == v@[m]@,
        decreases v.len() - k,
    {
        out.push(copy_text(&v[k]));
        k = k + 1;
    }
    proof {
        assert(texts(out@) =~= texts(v@));
    }
    out
}

pub open spec fn same_manoeuvre(a: ManoeuvreDef, b: ManoeuvreDef) -> bool {
    &&& a.id@ == b.id@
    &&& a.name.0@ == b.name.0@
    &&& a.stamina_cost == b.stamina_cost
    &&& a.effect == b.effect
    &&& a.description.0@ == b.description.0@
}

pub open spec fn same_signature(a: SignatureDef, b: SignatureDef) -> bool {
    &&& a.id@ == b.id@
    &&& a.name.0@ == b.name.0@
    &&& a.physical_cost == b.physical_cost
    &&& a.effect == b.effect
    &&& a.description.0@ == b.description.0@
}

/// Two hunter definitions say the same thing, field for field.
pub open spec fn same_hunter(a: HunterDef, b: HunterDef) -> bool {
    &&& a.name.0@ == b.name.0@
    &&& a.title.0@ == b.title.0@
    &&& a.glyph == b.glyph
    &&& a.health == b.health
    &&& a.lore_cap == b.lore_cap
    &&& a.social_cap == b.social_cap
    &&& a.mystic_cap == b.mystic_cap
    &&& a.physical_cap == b.physical_cap
    &&& a.stamina_cap == b.stamina_cap
    &&& texts(a.starting_items@) == texts(b.starting_items@)
    &&& a.manoeuvres@.len() == b.manoeuvres@.len()
    &&& forall|i: int| 0 <= i < a.manoeuvres@.len() ==> same_manoeuvre(#[trigger] a.manoeuvres@[i], b.manoeuvres@[i])
    &&& a.signatures@.len() == b.signatures@.len()
    &&& forall|i: int| 0 <= i < a.signatures@.len() ==> same_signature(#[trigger] a.signatures@[i], b.signatures@[i])
}

impl HunterDef {
    /// A field-for-field copy.
    pub fn duplicate(&self) -> (r: HunterDef)
        ensures
            same_hunter(r, *self),
    {
        let mut manoeuvres: Vec<ManoeuvreDef> = Vec::new();
        let mut k: usize = 0;
        while k < self.manoeuvres.len()
            invariant
                k <= self.manoeuvres.len(),
                manoeuvres.len() == k,
                forall|m: int| 0 <= m < k ==> same_manoeuvre(#[trigger] manoeuvres@[m], self.manoeuvres@[m]),
            decreases self.manoeuvres.len() - k,
        {
            let m = &self.manoeuvres[k];
            manoeuvres.push(
                ManoeuvreDef {
                    id: copy_text(&m.id),
                    name: copy_id(&m.name),
                    stamina_cost: m.stamina_cost,
                    effect: m.effect,
                    description: copy_id(&m.description),
                },
            );
            k = k + 1;
        }
        let mut signatures: Vec<SignatureDef> = Vec::new();
        let mut k: usize = 0;
        while k < self.signatures.len()
            invariant
                k <= self.signatures.len(),
                signatures.len() == k,
                forall|m: int| 0 <= m < k ==> same_signature(#[trigger] signatures@[m], self.signatures@[m]),
            decreases self.signatures.len() - k,
        {
            let s = &self.signatures[k];
            signatures.push(
                SignatureDef {
                    id: copy_text(&s.id),
                    name: copy_id(&s.name),
                    physical_cost: s.physical_cost,
                    effect: s.effect,
                    description: copy_id(&s.description),
                },
            );
            k = k + 1;
        }
        HunterDef {
            name: copy_id(&self.name),
            title: copy_id(&self.title),
            glyph: self.glyph,
            health: self.health,
            lore_cap: self.lore_cap,
            social_cap: self.social_cap,
            mystic_cap: self.mystic_cap,
            physical_cap: self.physical_cap,
            stamina_cap: self.stamina_cap,
            starting_items: copy_texts(&self.starting_items),
            manoeuvres,
            signatures,
        }
    }
}

/// Every parsed content table, before a hunter is selected and the whole is
/// validated.
#[derive(Debug, Clone)]
pub struct CatalogueParts {
    pub balance: Balance,
    pub hunters: KeyedMap<HunterDef>,
    pub enemies: KeyedMap<EnemyDef>,
    pub villains: KeyedMap<VillainDef>,
    pub origins: KeyedMap<OriginDef>,
    pub schemes: KeyedMap<SchemeDef>,
    pub items: KeyedMap<ItemDef>,
    pub recipes: KeyedMap<RecipeDef>,
    pub clues: KeyedMap<ClueTemplate>,
    pub npcs: NpcCatalogue,
    pub maps: KeyedMap<MapTemplate>,
    pub gathers: KeyedMap<GatherDef>,
    pub grimoire: Vec<GrimoireEntry>,
    pub ui: UiText,
    pub openings: Vec<OpeningDef>,
    pub conditions: Vec<ConditionDef>,
    pub machines: KeyedMap<MachineDef>,
    pub events: KeyedMap<EventDef>,
    pub strings: StringTable,
}

/// The catalogue the parts make with the given hunter selected.
pub open spec fn assembled(parts: CatalogueParts, hunter_id: String, hunter: HunterDef) -> Catalogue {
    Catalogue {
        balance: parts.balance,
        hunter,
        hunter_id,
        hunters: parts.hunters,
        enemies: parts.enemies,
        villains: parts.villains,
        origins: parts.origins,
        schemes: parts.schemes,
        items: parts.items,
        recipes: parts.recipes,
        clues: parts.clues,
        npcs: parts.npcs,
        maps: parts.maps,
        gathers: parts.gathers,
        grimoire: parts.grimoire,
        ui: parts.ui,
        openings: parts.openings,
        conditions: parts.conditions,
        machines: parts.machines,
        events: parts.events,
        strings: parts.strings,
    }
}

/// The hunter a catalogue starts with: the first by id. Callers override
/// it before generating. A roster with nobody in it is a missing file.
pub fn default_hunter(hunters: &KeyedMap<HunterDef>) -> (r: Result<(String, HunterDef), ContentError>)
    ensures
        r is Err <==> hunters.len_spec() == 0,
        r matches Err(e) ==> e matches ContentError::MissingFile(file) && file@ == "hunters/*.toml"@,
        r matches Ok((id, hunter)) ==> id@ == hunters.keys()[0] && same_hunter(hunter, hunters.values()[0]),
{
    if hunters.is_empty() {
        return Err(ContentError::MissingFile(text_owned("hunters/*.toml")));
    }
    let (id, hunter) = hunters.entry(0);
    Ok((copy_text(id), hunter.duplicate()))
}

impl Catalogue {
    /// Put the parsed tables together with the selected hunter and validate
    /// the result: the catalogue comes back exactly when every content rule
    /// holds, and otherwise every issue found is listed.
    pub fn assemble(parts: CatalogueParts, hunter_id: String, hunter: HunterDef) -> (r: Result<Catalogue, ContentError>)
        ensures
            r is Ok <==> catalogue_valid(&assembled(parts, hunter_id, hunter)),
            r matches Ok(cat) ==> cat == assembled(parts, hunter_id, hunter),
            r matches Err(e) ==> e matches ContentError::Invalid { issues } && issues@.len() > 0
                && maps_walls_reported(issues@, 0, &assembled(parts, hunter_id, hunter))
                && church_slots_reported(issues@, 0, &assembled(parts, hunter_id, hunter))
                && unknown_ids_reported(issues@, 0, &assembled(parts, hunter_id, hunter))
                && half_keyed_reported(issues@, 0, &assembled(parts, hunter_id, hunter)),
    {
        let catalogue = Catalogue {
            balance: parts.balance,
            hunter,
            hunter_id,
            hunters: parts.hunters,
            enemies: parts.enemies,
            villains: parts.villains,
            origins: parts.origins,
            schemes: parts.schemes,
            items: parts.items,
            recipes: parts.recipes,
            clues: parts.clues,
            npcs: parts.npcs,
            maps: parts.maps,
            gathers: parts.gathers,
            grimoire: parts.grimoire,
            ui: parts.ui,
            openings: parts.openings,
            conditions: parts.conditions,
            machines: parts.machines,
            events: parts.events,
            strings: parts.strings,
        };
        let issues = validate(&catalogue);
        if issues.len() == 0 {
            Ok(catalogue)
        } else {
            Err(ContentError::Invalid { issues })
        }
    }

    /// Everything but the hunter selection is the same in both catalogues.
    pub open spec fn same_content(&self, other: &Catalogue) -> bool {
        &&& self.balance == other.balance
        &&& self.hunters == other.hunters
        &&& self.enemies == other.enemies
        &&& self.villains == other.villains
        &&& self.origins == other.origins
        &&& self.schemes == other.schemes
        &&& self.items == other.items
        &&& self.recipes == other.recipes
        &&& self.clues == other.clues
        &&& self.npcs == other.npcs
        &&& self.maps == other.maps
        &&& self.gathers == other.gathers
        &&& self.grimoire == other.grimoire
        &&& self.ui == other.ui
        &&& self.openings == other.openings
        &&& self.conditions == other.conditions
        &&& self.machines == other.machines
        &&& self.events == other.events
        &&& self.strings == other.strings
    }

    /// Choose the hunter this run is for. Must be called before generating:
    /// route certification is per-hunter, so the choice is an input to
    /// generation rather than a costume applied afterwards.
    pub fn select_hunter(&mut self, id: &str) -> (r: Result<(), ContentError>)
        ensures
            r is Ok <==> old(self).hunters.contains(id@),
            r is Ok ==> {
                &&& old(self).hunters.lookup(id@) matches Some(h) && same_hunter(final(self).hunter, h)
                &&& final(self).hunter_id@ == id@
                &&& final(self).same_content(&*old(self))
            },
            r matches Err(e) ==> e matches ContentError::UnknownHunter(named) && named@ == id@,
            r is Err ==> *final(self) == *old(self),
    {
        match self.hunters.get(id) {
            Some(hunter) => {
                let chosen = hunter.duplicate();
                self.hunter = chosen;
                self.hunter_id = text_owned(id);
                Ok(())
            },
            None => Err(ContentError::UnknownHunter(text_owned(id))),
        }
    }

    /// The same catalogue with a different hunter selected.
    pub fn with_hunter(self, id: &str) -> (r: Result<Catalogue, ContentError>)
        ensures
            r is Ok <==> self.hunters.contains(id@),
            r matches Ok(cat) ==> {
                &&& self.hunters.lookup(id@) matches Some(h) && same_hunter(cat.hunter, h)
                &&& cat.hunter_id@ == id@
                &&& cat.same_content(&self)
            },
            r matches Err(e) ==> e matches ContentError::UnknownHunter(named) && named@ == id@,
    {
        let mut cat = self;
        match cat.select_hunter(id) {
            Ok(()) => Ok(cat),
            Err(e) => Err(e),
        }
    }

    /// Selectable hunters in a stable order, as `(id, definition)`.
    pub fn hunter_roster(&self) -> (r: Vec<(&String, &HunterDef)>)
        ensures
            r.len() == self.hunters.len_spec(),
            forall|i: int|
                0 <= i < r.len() ==> (#[trigger] r@[i]).0@ == self.hunters.keys()[i] && *r@[i].1
                    == self.hunters.values()[i],
    {
        let mut out: Vec<(&String, &HunterDef)> = Vec::new();
        let mut k: usize = 0;
        while k < self.hunters.len()
            invariant
                k <= self.hunters.len_spec(),
                out.len() == k,
                forall|i: int|
                    0 <= i < k ==> (#[trigger] out@[i]).0@ == self.hunters.keys()[i] && *out@[i].1
                        == self.hunters.values()[i],
            decreases self.hunters.len_spec() - k,
        {
            out.push(self.hunters.entry(k));
            k = k + 1;
        }
        out
    }

    /// Template ids that can fill `role`, in key order. Generation picks one
    /// of these per role, so the order must not depend on iteration
    /// accidents.
    pub fn templates_for(&self, role: MapRole) -> (r: Vec<&String>)
        ensures
            r@.map_values(|s: &String| s@) == templates_with_role(self.maps.keys(), self.maps.values(), role),
            forall|i: int, j: int| 0 <= i < j < r.len() ==> text_lt(#[trigger] r@[i]@, #[trigger] r@[j]@),
    {
        proof {
            use_type_invariant(&self.maps);
            lemma_keys_ascending(self.maps.keys());
            lemma_role_ids_ascending(self.maps.keys(), self.maps.values(), role);
        }
        let mut out: Vec<&String> = Vec::new();
        let mut k: usize = 0;
        while k < self.maps.len()
            invariant
                k <= self.maps.len_spec(),
                out@.map_values(|s: &String| s@) == templates_with_role(
                    self.maps.keys().take(k as int),
                    self.maps.values().take(k as int),
                    role,
                ),
            decreases self.maps.len_spec() - k,
        {
            let (id, template) = self.maps.entry(k);
            let ghost keys = self.maps.keys();
            let ghost values = self.maps.values();
            proof {
                assert(keys.take(k + 1).drop_last() =~= keys.take(k as int));
                assert(values.take(k + 1).drop_last() =~= values.take(k as int));
            }
            if template.role == role {
                out.push(id);
                proof {
                    assert(out@.map_values(|s: &String| s@) =~= templates_with_role(keys.take(k as int), values.take(k as int), role).push(id@));
                }
            }
            k = k + 1;
        }
        proof {
            assert(self.maps.keys().take(k as int) =~= self.maps.keys());
            assert(self.maps.values().take(k as int) =~= self.maps.values());
            let ids = out@.map_values(|s: &String| s@);
            assert forall|i: int, j: int| 0 <= i < j < out.len() implies text_lt(#[trigger] out@[i]@, #[trigger] out@[j]@) by {
                assert(ids[i] == out@[i]@);
                assert(ids[j] == out@[j]@);
            }
        }
        out
    }
}

/// The ids, in order, of the templates whose role is `role`.
pub open spec fn templates_with_role(keys: Seq<Seq<char>>, values: Seq<MapTemplate>, role: MapRole) -> Seq<Seq<char>>
    decreases keys.len(),
{
    if keys.len() == 0 || values.len() != keys.len() {
        seq![]
    } else {
        let rest = templates_with_role(keys.drop_last(), values.drop_last(), role);
        if values.last().role == role {
            rest.push(keys.last())
        } else {
            rest
        }
    }
}

/// Picking out the ids of one role keeps strictly rising keys rising, and
/// picks only keys.
proof fn lemma_role_ids_ascending(keys: Seq<Seq<char>>, values: Seq<MapTemplate>, role: MapRole)
    requires
        forall|i: int, j: int| 0 <= i < j < keys.len() ==> text_lt(#[trigger] keys[i], #[trigger] keys[j]),
    ensures
        forall|i: int, j: int|
            0 <= i < j < templates_with_role(keys, values, role).len() ==> text_lt(
                #[trigger] templates_with_role(keys, values, role)[i],
                #[trigger] templates_with_role(keys, values, role)[j],
            ),
        forall|i: int|
            0 <= i < templates_with_role(keys, values, role).len() ==> keys.contains(
                #[trigger] templates_with_role(keys, values, role)[i],
            ),
    decreases keys.len(),
{
    let r = templates_with_role(keys, values, role);
    if keys.len() > 0 && values.len() == keys.len() {
        let init = keys.drop_last();
        let last = keys.len() - 1;
        assert forall|i: int, j: int| 0 <= i < j < init.len() implies text_lt(#[trigger] init[i], #[trigger] init[j]) by {
            assert(init[i] == keys[i]);
            assert(init[j] == keys[j]);
        }
        lemma_role_ids_ascending(init, values.drop_last(), role);
        let rest = templates_with_role(init, values.drop_last(), role);
        assert forall|i: int| 0 <= i < rest.len() implies #[trigger] keys.contains(rest[i]) && rest[i] != keys[last]
            && text_lt(rest[i], keys[last]) by {
            assert(init.contains(rest[i]));
            let k = choose|k: int| 0 <= k < init.len() && init[k] == rest[i];
            assert(init[k] == keys[k]);
            assert(text_lt(keys[k], keys[last]));
            lemma_text_lt_irreflexive(keys[last]);
        }
        if values.last().role == role {
            assert(r == rest.push(keys[last]));
            assert forall|i: int, j: int| 0 <= i < j < r.len() implies text_lt(#[trigger] r[i], #[trigger] r[j]) by {
                assert(r[i] == rest[i]);
                assert(keys.contains(rest[i]));
                if j < rest.len() {
                    assert(r[j] == rest[j]);
                }
            }
            assert forall|i: int| 0 <= i < r.len() implies keys.contains(#[trigger] r[i]) by {
                if i == rest.len() {
                    assert(r[i] == keys[last]);
                } else {
                    assert(r[i] == rest[i]);
                    assert(keys.contains(rest[i]));
                }
            }
        } else {
            assert(r == rest);
            assert forall|i: int| 0 <= i < r.len() implies keys.contains(#[trigger] r[i]) by {
                assert(keys.contains(rest[i]));
            }
        }
    }
}

/// The file stem of `name` when it names a TOML file in directory `dir`:
/// `dir`, a slash, the stem, `.toml`.
pub open spec fn toml_stem_of(name: Seq<char>, dir: Seq<char>) -> Option<Seq<char>> {
    let head = dir + "/"@;
    if name.len() >= head.len() + 5 && name.take(head.len() as int) == head && name.skip(name.len() - 5) == ".toml"@ {
        Some(name.subrange(head.len() as int, name.len() - 5))
    } else {
        None
    }
}

/// The stem of a content file named `name` in directory `dir`, if it is a
/// TOML file there: "maps/settlement.toml" in "maps" is "settlement".
pub fn toml_stem(name: &str, dir: &str) -> (r: Option<String>)
    ensures
        r is None <==> toml_stem_of(name@, dir@) is None,
        r matches Some(stem) ==> toml_stem_of(name@, dir@) == Some(stem@),
{
    let n = chars_of(name);
    let mut head = chars_of(dir);
    head.push('/');
    let suffix = chars_of(".toml");
    proof {
        assert(head@ =~= dir@ + "/"@) by {
            reveal_strlit("/");
        }
        reveal_strlit(".toml");
    }
    if n.len() < 5 || n.len() - 5 < head.len() {
        return None;
    }
    let mut k: usize = 0;
    while k < head.len()
        invariant
            k <= head@.len(),
            n@ == name@,
            head@ == dir@ + "/"@,
            head@.len() + 5 <= n@.len(),
            forall|m: int| 0 <= m < k ==> n@[m] == head@[m],
        decreases head@.len() - k,
    {
        if n[k] != head[k] {
            proof {
                assert(n@.take(head@.len() as int)[k as int] != head@[k as int]);
            }
            return None;
        }
        k = k + 1;
    }
    proof {
        assert(n@.take(head@.len() as int) =~= head@);
    }
    let start = n.len() - 5;
    let mut j: usize = 0;
    while j < 5
        invariant
            j <= 5,
            n@ == name@,
            start + 5 == n@.len(),
            n@.len() == n.len(),
            head@ == dir@ + "/"@,
            n@.take(head@.len() as int) == head@,
            head@.len() + 5 <= n@.len(),
            suffix@ == ".toml"@,
            suffix@.len() == 5,
            forall|m: int| 0 <= m < j ==> n@[start + m] == suffix@[m],
        decreases 5 - j,
    {
        if n[start + j] != suffix[j] {
            proof {
                assert(n@.skip(start as int)[j as int] != suffix@[j as int]);
            }
            return None;
        }
        j = j + 1;
    }
    proof {
        assert(n@.skip(start as int) =~= suffix@);
    }
    let mut stem: Vec<char> = Vec::new();
    let mut i: usize = head.len();
    while i < start
        invariant
            head@.len() <= i <= start,
            start == n@.len() - 5,
            stem@ == n@.subrange(head@.len() as int, i as int),
        decreases start - i,
    {
        stem.push(n[i]);
        proof {
            assert(n@.subrange(head@.len() as int, i + 1) =~= n@.subrange(head@.len() as int, i as int).push(
                n@[i as int],
            ));
        }
        i = i + 1;
    }
    Some(text_from_chars(&stem))
}

/// The text of the last source named `file` among the first `n`, if any.
pub open spec fn source_named(sources: Seq<(&str, &str)>, file: Seq<char>, n: int) -> Option<Seq<char>>
    decreases n,
{
    if n <= 0 {
        None
    } else if sources[n - 1].0@ == file {
        Some(sources[n - 1].1@)
    } else {
        source_named(sources, file, n - 1)
    }
}

/// The text of the content file `file` among `sources`, the last one of
/// that name when there are several; a missing file is an error naming it.
pub fn source_text<'a>(sources: &[(&'a str, &'a str)], file: &str) -> (r: Result<&'a str, ContentError>)
    ensures
        source_named(sources@, file@, sources@.len() as int) matches Some(t) ==> (r matches Ok(text) && text@ == t),
        source_named(sources@, file@, sources@.len() as int) is None ==> (r matches Err(ContentError::MissingFile(f))
            && f@ == file@),
{
    let mut k: usize = sources.len();
    while k > 0
        invariant
            k <= sources@.len(),
            source_named(sources@, file@, sources@.len() as int) == source_named(sources@, file@, k as int),
        decreases k,
    {
        let (name, text) = sources[k - 1];
        if text_eq(name, file) {
            return Ok(text);
        }
        k = k - 1;
    }
    Err(ContentError::MissingFile(text_owned(file)))
}

} // verus!
