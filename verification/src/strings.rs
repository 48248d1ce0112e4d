//! The localisation string table.
//!
//! Every string the player reads lives in the string table, keyed by a
//! stable id, with a context note telling a writer or translator where the
//! line appears. Content and code both hold ids; the text itself is resolved
//! here at the point of display.
//!
//! The table is deliberately not part of the content fingerprint: rewriting
//! a line, or translating it, must not invalidate a share code.
use vstd::prelude::*;

use crate::catalogue::ContentError;
use crate::csv::{csv_records, parse as parse_csv, record_view, records_view};
use crate::keyed::{lemma_keys_ascending, KeyedMap};
use crate::text::{chars_of, push_char, push_number, push_text, text_eq, text_lt, text_owned};

verus! {

/// A reference to a row of the string table: a lookup key, never something
/// to show a player.
#[derive(Debug, Clone, PartialEq, Eq, PartialOrd, Ord, Hash)]
pub struct StringId(pub String);

impl StringId {
    pub fn as_str(&self) -> (r: &str)
        ensures
            r@ == self.0@,
    {
        self.0.as_str()
    }
}

impl<'a> From<&'a str> for StringId {
    fn from(value: &'a str) -> (r: Self) {
        StringId(value.to_owned())
    }
}

/// The conversion copies the text into a new id. The copy's identity as a
/// `String` value is not modelled, so no contract is claimed for `from`;
/// verified code builds ids from owned strings directly.
impl<'a> vstd::std_specs::convert::FromSpecImpl<&'a str> for StringId {
    open spec fn obeys_from_spec() -> bool {
        false
    }

    open spec fn from_spec(v: &'a str) -> StringId {
        arbitrary()
    }
}

#[derive(Debug, Clone)]
pub struct StringRow {
    /// Where this line appears and how it is used, for whoever writes or
    /// translates it. Validation requires it to be non-empty.
    pub context: String,
    pub english: String,
}

/// Every authored string, keyed by id.
#[derive(Debug, Clone)]
pub struct StringTable {
    rows: KeyedMap<StringRow>,
}

/// The header a string table must open with.
pub open spec fn table_header() -> Seq<Seq<char>> {
    seq!["id"@, "context"@, "english"@]
}

/// Whether the records of a CSV text form a string table: the header, then
/// rows of exactly three fields with non-empty, unique ids.
pub open spec fn valid_table(recs: Seq<Seq<Seq<char>>>) -> bool {
    &&& recs.len() >= 1
    &&& recs[0] == table_header()
    &&& forall|k: int| 1 <= k < recs.len() ==> (#[trigger] recs[k]).len() == 3 && recs[k][0].len() > 0
    &&& forall|k: int, m: int| 1 <= k < m < recs.len() ==> (#[trigger] recs[k])[0] != (#[trigger] recs[m])[0]
}

/// A looked-up row holds this context note and English text.
pub open spec fn row_holds(row: Option<StringRow>, context: Seq<char>, english: Seq<char>) -> bool {
    match row {
        Some(r) => r.context@ == context && r.english@ == english,
        None => false,
    }
}

/// The text a missing id resolves to: loud, so a typo shows on screen.
pub open spec fn missing_text() -> Seq<char> {
    "[!missing]"@
}

/// `s` with every non-overlapping occurrence of `pat`, scanning left to
/// right, replaced by `rep`.
pub open spec fn replace_all(s: Seq<char>, pat: Seq<char>, rep: Seq<char>) -> Seq<char>
    recommends
        pat.len() > 0,
    decreases s.len(),
{
    if pat.len() == 0 || s.len() < pat.len() {
        s
    } else if s.take(pat.len() as int) == pat {
        rep + replace_all(s.skip(pat.len() as int), pat, rep)
    } else {
        seq![s[0]] + replace_all(s.drop_first(), pat, rep)
    }
}

/// The placeholder `{key}` as written in a template.
pub open spec fn placeholder(key: Seq<char>) -> Seq<char> {
    seq!['{'] + key + seq!['}']
}

/// `text` with each `(key, value)` placeholder substituted in turn.
pub open spec fn fill_all(text: Seq<char>, args: Seq<(Seq<char>, Seq<char>)>) -> Seq<char>
    decreases args.len(),
{
    if args.len() == 0 {
        text
    } else {
        fill_all(
            replace_all(text, placeholder(args[0].0), args[0].1),
            args.drop_first(),
        )
    }
}

pub open spec fn args_view(args: Seq<(&str, &str)>) -> Seq<(Seq<char>, Seq<char>)> {
    args.map_values(|a: (&str, &str)| (a.0@, a.1@))
}

proof fn lemma_replace_step(s: Seq<char>, i: int, pat: Seq<char>, rep: Seq<char>, matched: bool)
    requires
        pat.len() > 0,
        0 <= i < s.len(),
        i + pat.len() <= s.len() ==> (matched == (s.skip(i).take(pat.len() as int) == pat)),
        i + pat.len() > s.len() ==> !matched,
    ensures
        matched ==> replace_all(s.skip(i), pat, rep) == rep + replace_all(s.skip(i + pat.len()), pat, rep),
        !matched ==> replace_all(s.skip(i), pat, rep) == seq![s[i]] + replace_all(s.skip(i + 1), pat, rep),
{
    let t = s.skip(i);
    if matched {
        assert(t.skip(pat.len() as int) =~= s.skip(i + pat.len()));
    }
    assert(t.drop_first() =~= s.skip(i + 1));
    if !matched && t.len() < pat.len() {
        // Too short to match: every remaining character is copied through.
        lemma_replace_short(t, pat, rep);
        lemma_replace_short(s.skip(i + 1), pat, rep);
        assert(t =~= seq![s[i]] + s.skip(i + 1));
    }
}

proof fn lemma_replace_short(s: Seq<char>, pat: Seq<char>, rep: Seq<char>)
    requires
        s.len() < pat.len(),
    ensures
        replace_all(s, pat, rep) == s,
{
}

/// `s` with every occurrence of `pat` replaced by `rep`.
fn replace_text(s: &str, pat: &Vec<char>, rep: &str) -> (r: String)
    requires
        pat.len() > 0,
    ensures
        r@ == replace_all(s@, pat@, rep@),
{
    let chars = chars_of(s);
    let mut out = String::new();
    let mut i: usize = 0;
    proof {
        assert(s@.skip(0) =~= s@);
    }
    while i < chars.len()
        invariant
            chars@ == s@,
            pat@.len() > 0,
            i <= chars.len(),
            out@ + replace_all(s@.skip(i as int), pat@, rep@) == replace_all(s@, pat@, rep@),
        decreases chars.len() - i,
    {
        let mut matched = false;
        if pat.len() <= chars.len() - i {
            let mut k: usize = 0;
            while k < pat.len() && chars[i + k] == pat[k]
                invariant
                    i + pat.len() <= chars.len(),
                    k <= pat.len(),
                    forall|m: int| 0 <= m < k ==> chars@[i + m] == pat@[m],
                decreases pat.len() - k,
            {
                k = k + 1;
            }
            matched = k == pat.len();
            proof {
                if matched {
                    assert(s@.skip(i as int).take(pat@.len() as int) =~= pat@);
                } else {
                    assert(s@.skip(i as int).take(pat@.len() as int)[k as int] != pat@[k as int]);
                }
            }
        }
        proof {
            lemma_replace_step(s@, i as int, pat@, rep@, matched);
        }
        let ghost before = out@;
        if matched {
            push_text(&mut out, rep);
            i = i + pat.len();
        } else {
            push_char(&mut out, chars[i]);
            i = i + 1;
        }
        proof {
            if matched {
                assert(out@ + replace_all(s@.skip(i as int), pat@, rep@) =~= before + (rep@
                    + replace_all(s@.skip(i as int), pat@, rep@)));
            } else {
                assert(out@ + replace_all(s@.skip(i as int), pat@, rep@) =~= before + (seq![
                    s@[i - 1],
                ] + replace_all(s@.skip(i as int), pat@, rep@)));
            }
        }
    }
    proof {
        assert(s@.skip(i as int) =~= Seq::<char>::empty());
        assert(out@ + Seq::<char>::empty() =~= out@);
    }
    out
}

fn invalid(detail: String) -> (e: ContentError)
    ensures
        e matches ContentError::Invalid { issues } && issues@.len() == 1 && issues@[0]@ == "strings.csv: "@ + detail@
            && issues@[0]@.take("strings.csv: "@.len() as int) == "strings.csv: "@,
{
    let mut message = String::new();
    push_text(&mut message, "strings.csv: ");
    push_text(&mut message, detail.as_str());
    let mut issues: Vec<String> = Vec::new();
    issues.push(message);
    proof {
        assert(issues@[0]@ =~= "strings.csv: "@ + detail@);
        assert(issues@[0]@.take("strings.csv: "@.len() as int) =~= "strings.csv: "@);
    }
    ContentError::Invalid { issues }
}

impl StringTable {
    /// The row stored under `id`, if any.
    pub open spec fn spec_row(&self, id: Seq<char>) -> Option<StringRow> {
        self.spec_rows().lookup(id)
    }

    /// The English text of `id`, if the table has it.
    pub open spec fn english(&self, id: Seq<char>) -> Option<Seq<char>> {
        match self.spec_row(id) {
            Some(row) => Some(row.english@),
            None => None,
        }
    }

    /// What `id` resolves to on screen.
    pub open spec fn resolve(&self, id: Seq<char>) -> Seq<char> {
        match self.english(id) {
            Some(t) => t,
            None => missing_text(),
        }
    }

    pub closed spec fn spec_rows(&self) -> KeyedMap<StringRow> {
        self.rows
    }

    /// The ids held, in key order.
    pub open spec fn spec_ids(&self) -> Seq<Seq<char>> {
        self.spec_rows().keys()
    }

    /// An empty table.
    pub fn new() -> (t: Self)
        ensures
            t.spec_ids().len() == 0,
    {
        StringTable { rows: KeyedMap::new() }
    }

    /// Parse the table from CSV text with an `id,context,english` header.
    pub fn parse(source: &str) -> (r: Result<Self, ContentError>)
        ensures
            r is Ok <==> (csv_records(source@) matches Ok(recs) && valid_table(recs)),
            r matches Err(e) ==> (e matches ContentError::Invalid { issues } && issues@.len() == 1
                && issues@[0]@.take("strings.csv: "@.len() as int) == "strings.csv: "@),
            r matches Ok(t) ==> (csv_records(source@) matches Ok(recs) && {
                &&& t.spec_ids().len() == recs.len() - 1
                &&& forall|k: int|
                    1 <= k < recs.len() ==> row_holds(#[trigger] t.spec_row(recs[k][0]), recs[k][1], recs[k][2])
                &&& forall|id: Seq<char>|
                    t.spec_rows().contains(id) ==> exists|k: int| 1 <= k < recs.len() && #[trigger] recs[k][0] == id
            }),
    {
        let records = match parse_csv(source) {
            Ok(records) => records,
            Err(detail) => return Err(invalid(detail)),
        };
        let ghost recs = records_view(records@);
        if records.len() == 0 {
            let mut detail = String::new();
            push_text(&mut detail, "the file is empty");
            return Err(invalid(detail));
        }
        let header = &records[0];
        let header_ok = header.len() == 3 && text_eq(header[0].as_str(), "id") && text_eq(
            header[1].as_str(),
            "context",
        ) && text_eq(header[2].as_str(), "english");
        proof {
            assert(recs[0] == record_view(header@));
            if header_ok {
                assert(record_view(header@) =~= table_header());
            } else if header@.len() == 3 {
                assert(record_view(header@)[0] == header@[0]@);
                assert(record_view(header@)[1] == header@[1]@);
                assert(record_view(header@)[2] == header@[2]@);
            }
        }
        if !header_ok {
            let mut detail = String::new();
            push_text(&mut detail, "expected an 'id,context,english' header, found [");
            let mut h: usize = 0;
            while h < header.len()
                invariant
                    h <= header.len(),
                decreases header.len() - h,
            {
                if h > 0 {
                    push_text(&mut detail, ", ");
                }
                push_text(&mut detail, "\"");
                push_text(&mut detail, header[h].as_str());
                push_text(&mut detail, "\"");
                h = h + 1;
            }
            push_text(&mut detail, "]");
            return Err(invalid(detail));
        }
        let mut rows: KeyedMap<StringRow> = KeyedMap::new();
        let mut index: usize = 1;
        while index < records.len()
            invariant
                recs == records_view(records@),
                csv_records(source@) == Ok::<Seq<Seq<Seq<char>>>, nat>(recs),
                1 <= index <= records.len(),
                recs[0] == table_header(),
                rows.len_spec() == index - 1,
                forall|k: int| 1 <= k < index ==> (#[trigger] recs[k]).len() == 3 && recs[k][0].len() > 0,
                forall|k: int, m: int| 1 <= k < m < index ==> (#[trigger] recs[k])[0] != (#[trigger] recs[m])[0],
                forall|k: int|
                    1 <= k < index ==> row_holds(#[trigger] rows.lookup(recs[k][0]), recs[k][1], recs[k][2]),
                forall|id: Seq<char>| rows.contains(id) ==> exists|k: int| 1 <= k < index && #[trigger] recs[k][0] == id,
            decreases records.len() - index,
        {
            let record = &records[index];
            assert(recs[index as int] == record_view(record@));
            if record.len() != 3 {
                proof {
                    assert(recs[index as int].len() != 3);
                    assert(!valid_table(recs));
                }
                let mut detail = String::new();
                push_text(&mut detail, "line ");
                push_number(&mut detail, (index + 1) as u128);
                push_text(&mut detail, ": expected 3 fields, found ");
                push_number(&mut detail, record.len() as u128);
                return Err(invalid(detail));
            }
            let id = record[0].clone();
            let context = record[1].clone();
            let english = record[2].clone();
            proof {
                assert(recs[index as int][0] == id@);
                assert(recs[index as int][1] == context@);
                assert(recs[index as int][2] == english@);
            }
            if id.as_str().is_empty() {
                proof {
                    assert(recs[index as int][0].len() == 0);
                    assert(!valid_table(recs));
                }
                let mut detail = String::new();
                push_text(&mut detail, "line ");
                push_number(&mut detail, (index + 1) as u128);
                push_text(&mut detail, ": empty id");
                return Err(invalid(detail));
            }
            let ghost old_rows = rows;
            let ghost id_view = id@;
            let replaced = rows.insert(id, StringRow { context, english });
            if replaced.is_some() {
                proof {
                    let k = choose|k: int| 1 <= k < index && #[trigger] recs[k][0] == id_view;
                    assert(recs[k][0] == recs[index as int][0]);
                }
                let mut detail = String::new();
                push_text(&mut detail, "line ");
                push_number(&mut detail, (index + 1) as u128);
                push_text(&mut detail, ": duplicate id '");
                push_text(&mut detail, record[0].as_str());
                push_text(&mut detail, "'");
                return Err(invalid(detail));
            }
            proof {
                assert forall|k: int, m: int| 1 <= k < m < index + 1 implies (#[trigger] recs[k])[0] != (#[trigger] recs[m])[0] by {
                    if m == index && recs[k][0] == recs[m][0] {
                        assert(old_rows.lookup(recs[k][0]) is Some);
                    }
                }
                assert forall|id2: Seq<char>| rows.contains(id2) implies exists|k: int| 1 <= k < index + 1 && #[trigger] recs[k][0] == id2 by {
                    if id2 != id_view {
                        assert(rows.lookup(id2) == old_rows.lookup(id2));
                    } else {
                        assert(recs[index as int][0] == id2);
                    }
                }
            }
            index = index + 1;
        }
        Ok(StringTable { rows })
    }

    /// Resolve an id, or a loud sentinel if it is missing. Deliberately not a
    /// panic: an unknown id should show a visible defect, not a blank screen.
    pub fn get(&self, id: &StringId) -> (r: &str)
        ensures
            r@ == self.resolve(id.0@),
    {
        self.ui(id.as_str())
    }

    /// Resolve a code-side id, or the same loud sentinel.
    pub fn ui(&self, id: &str) -> (r: &str)
        ensures
            r@ == self.resolve(id@),
    {
        match self.try_get(id) {
            Some(text) => text,
            None => "[!missing]",
        }
    }

    pub fn try_get(&self, id: &str) -> (r: Option<&str>)
        ensures
            r matches Some(t) ==> self.english(id@) == Some(t@),
            r is None ==> self.english(id@) is None,
    {
        match self.rows.get(id) {
            Some(row) => Some(row.english.as_str()),
            None => None,
        }
    }

    pub fn row(&self, id: &str) -> (r: Option<&StringRow>)
        ensures
            r matches Some(row) ==> self.spec_row(id@) == Some(*row),
            r is None ==> self.spec_row(id@) is None,
    {
        self.rows.get(id)
    }

    /// Resolve an id and substitute `{name}`-style placeholders, each
    /// argument in turn.
    pub fn fill(&self, id: &StringId, args: &[(&str, &str)]) -> (r: String)
        ensures
            r@ == fill_all(self.resolve(id.0@), args_view(args@)),
    {
        let mut text = text_owned(self.get(id));
        let mut k: usize = 0;
        proof {
            assert(args_view(args@).skip(0) =~= args_view(args@));
        }
        while k < args.len()
            invariant
                k <= args.len(),
                fill_all(text@, args_view(args@).skip(k as int)) == fill_all(self.resolve(id.0@), args_view(args@)),
            decreases args.len() - k,
        {
            let (key, value) = args[k];
            let mut pattern: Vec<char> = Vec::new();
            pattern.push('{');
            let key_chars = chars_of(key);
            let mut m: usize = 0;
            while m < key_chars.len()
                invariant
                    m <= key_chars.len(),
                    pattern@ == seq!['{'] + key_chars@.take(m as int),
                decreases key_chars.len() - m,
            {
                pattern.push(key_chars[m]);
                proof {
                    assert(key_chars@.take(m + 1) =~= key_chars@.take(m as int).push(key_chars@[m as int]));
                }
                m = m + 1;
            }
            pattern.push('}');
            proof {
                assert(key_chars@.take(m as int) =~= key_chars@);
                assert(pattern@ =~= placeholder(key@));
                let rest = args_view(args@).skip(k as int);
                assert(rest[0] == (key@, value@));
                assert(rest.drop_first() =~= args_view(args@).skip(k + 1));
            }
            text = replace_text(text.as_str(), &pattern, value);
            k = k + 1;
        }
        proof {
            assert(args_view(args@).skip(k as int) =~= Seq::<(Seq<char>, Seq<char>)>::empty());
        }
        text
    }

    /// The ids held, in key order.
    pub fn ids(&self) -> (r: Vec<&str>)
        ensures
            r@.map_values(|s: &str| s@) == self.spec_ids(),
            forall|i: int, j: int| 0 <= i < j < r.len() ==> text_lt(#[trigger] r@[i]@, #[trigger] r@[j]@),
            forall|id: Seq<char>| #[trigger] self.english(id) is Some <==> r@.map_values(|s: &str| s@).contains(id),
    {
        proof {
            use_type_invariant(&self.rows);
            lemma_keys_ascending(self.rows.keys());
        }
        let mut out: Vec<&str> = Vec::new();
        let mut k: usize = 0;
        while k < self.rows.len()
            invariant
                k <= self.rows.len_spec(),
                out.len() == k,
                forall|m: int| 0 <= m < k ==> (#[trigger] out@[m])@ == self.rows.keys()[m],
            decreases self.rows.len_spec() - k,
        {
            let (id, _) = self.rows.entry(k);
            out.push(id.as_str());
            k = k + 1;
        }
        proof {
            let ids = out@.map_values(|s: &str| s@);
            assert(ids =~= self.spec_ids());
            assert forall|i: int, j: int| 0 <= i < j < out.len() implies text_lt(#[trigger] out@[i]@, #[trigger] out@[j]@) by {
                assert(ids[i] == out@[i]@);
                assert(ids[j] == out@[j]@);
            }
        }
        out
    }

    /// Every `(id, row)`, in key order.
    pub fn rows(&self) -> (r: Vec<(&str, &StringRow)>)
        ensures
            r.len() == self.spec_ids().len(),
            forall|m: int|
                0 <= m < r.len() ==> (#[trigger] r@[m]).0@ == self.spec_ids()[m] && *r@[m].1
                    == self.spec_rows().values()[m],
    {
        let mut out: Vec<(&str, &StringRow)> = Vec::new();
        let mut k: usize = 0;
        while k < self.rows.len()
            invariant
                k <= self.rows.len_spec(),
                out.len() == k,
                forall|m: int|
                    0 <= m < k ==> (#[trigger] out@[m]).0@ == self.rows.keys()[m] && *out@[m].1
                        == self.rows.values()[m],
            decreases self.rows.len_spec() - k,
        {
            let (id, row) = self.rows.entry(k);
            out.push((id.as_str(), row));
            k = k + 1;
        }
        out
    }

    pub fn len(&self) -> (n: usize)
        ensures
            n == self.spec_ids().len(),
    {
        self.rows.len()
    }

    pub fn is_empty(&self) -> (r: bool)
        ensures
            r == (self.spec_ids().len() == 0),
    {
        self.rows.is_empty()
    }
}

} // verus!
