//! The string table's CSV reader.
//!
//! Fields are separated by commas and records by a line feed, optionally
//! preceded by a carriage return, so CRLF and LF files read alike. A field
//! that opens with a double quote runs to the matching close quote and may
//! hold commas and line breaks; inside it a doubled quote is one literal
//! quote. Blank lines hold no record. A quote left open at the end of the
//! text is an error that names the line it was opened on.
use vstd::prelude::*;

use crate::text::{chars_of, decimal, push_number, push_text, text_from_chars};

verus! {

/// Where the reader is partway through the text.
pub struct CsvState {
    /// Records completed so far.
    pub records: Seq<Seq<Seq<char>>>,
    /// Fields completed so far in the current record.
    pub fields: Seq<Seq<char>>,
    /// Characters of the field being read.
    pub field: Seq<char>,
    /// The current field opened with a quote.
    pub quoted: bool,
    /// The reader is inside an open quote.
    pub in_quotes: bool,
    /// 1-based line of the character being read.
    pub line: nat,
    /// Line on which the open quote, if any, was opened.
    pub quote_line: nat,
}

pub open spec fn csv_start() -> CsvState {
    CsvState {
        records: seq![],
        fields: seq![],
        field: seq![],
        quoted: false,
        in_quotes: false,
        line: 1,
        quote_line: 1,
    }
}

/// Whether the record being read holds anything at all.
pub open spec fn record_started(st: CsvState) -> bool {
    st.fields.len() > 0 || st.field.len() > 0 || st.quoted
}

/// Close the current field.
pub open spec fn end_field(st: CsvState) -> CsvState {
    CsvState { fields: st.fields.push(st.field), field: seq![], quoted: false, ..st }
}

/// Close the current record at a line break; a blank line closes nothing.
pub open spec fn end_record(st: CsvState) -> CsvState {
    if record_started(st) {
        let closed = end_field(st);
        CsvState { records: closed.records.push(closed.fields), fields: seq![], line: st.line + 1, ..closed }
    } else {
        CsvState { line: st.line + 1, ..st }
    }
}

/// The reader's state after the character at `i`, and how many characters
/// it consumed (a CRLF pair and a doubled quote are read together).
pub open spec fn csv_step(input: Seq<char>, i: int, st: CsvState) -> (CsvState, int) {
    let c = input[i];
    let next_is = |d: char| i + 1 < input.len() && input[i + 1] == d;
    if st.in_quotes {
        if c == '"' {
            if next_is('"') {
                (CsvState { field: st.field.push('"'), ..st }, 2)
            } else {
                (CsvState { in_quotes: false, ..st }, 1)
            }
        } else if c == '\n' {
            (CsvState { field: st.field.push(c), line: st.line + 1, ..st }, 1)
        } else {
            (CsvState { field: st.field.push(c), ..st }, 1)
        }
    } else if c == ',' {
        (end_field(st), 1)
    } else if c == '\n' {
        (end_record(st), 1)
    } else if c == '\r' && next_is('\n') {
        (end_record(st), 2)
    } else if c == '"' && st.field.len() == 0 && !st.quoted {
        (CsvState { quoted: true, in_quotes: true, quote_line: st.line, ..st }, 1)
    } else {
        (CsvState { field: st.field.push(c), ..st }, 1)
    }
}

/// The records of `input` read from position `i` onward, or the line of an
/// unterminated quote.
pub open spec fn csv_from(input: Seq<char>, i: int, st: CsvState) -> Result<Seq<Seq<Seq<char>>>, nat>
    decreases input.len() - i,
{
    if i < 0 || i >= input.len() {
        if st.in_quotes {
            Err(st.quote_line)
        } else if record_started(st) {
            let closed = end_field(st);
            Ok(closed.records.push(closed.fields))
        } else {
            Ok(st.records)
        }
    } else {
        let (next, used) = csv_step(input, i, st);
        csv_from(input, i + used, next)
    }
}

/// The records of a whole CSV text, or the line of an unterminated quote.
pub open spec fn csv_records(input: Seq<char>) -> Result<Seq<Seq<Seq<char>>>, nat> {
    csv_from(input, 0, csv_start())
}

/// The text of each field of a record.
pub open spec fn record_view(r: Seq<String>) -> Seq<Seq<char>> {
    r.map_values(|s: String| s@)
}

pub open spec fn records_view(rs: Seq<Vec<String>>) -> Seq<Seq<Seq<char>>> {
    rs.map_values(|r: Vec<String>| record_view(r@))
}

fn strings_of(fields: &Vec<Vec<char>>) -> (r: Vec<String>)
    ensures
        record_view(r@) == fields@.map_values(|f: Vec<char>| f@),
{
    let mut out: Vec<String> = Vec::new();
    let mut k: usize = 0;
    while k < fields.len()
        invariant
            k <= fields.len(),
            out.len() == k,
            forall|m: int| 0 <= m < k ==> #[trigger] out@[m]@ == fields@[m]@,
        decreases fields.len() - k,
    {
        out.push(text_from_chars(&fields[k]));
        k = k + 1;
    }
    proof {
        assert(record_view(out@) =~= fields@.map_values(|f: Vec<char>| f@));
    }
    out
}

/// Split CSV text into records, each a list of fields with quoting resolved.
/// Errors name the 1-based line on which an unterminated quote was opened.
pub fn parse(source: &str) -> (r: Result<Vec<Vec<String>>, String>)
    ensures
        r is Ok <==> csv_records(source@) is Ok,
        r matches Ok(rs) ==> csv_records(source@) == Ok::<Seq<Seq<Seq<char>>>, nat>(records_view(rs@)),
        r matches Err(message) ==> (csv_records(source@) matches Err(line) && message@ == "line "@ + decimal(line)
            + ": unterminated quoted field"@),
{
    let input = chars_of(source);
    let mut records: Vec<Vec<String>> = Vec::new();
    let mut fields: Vec<Vec<char>> = Vec::new();
    let mut field: Vec<char> = Vec::new();
    let mut quoted = false;
    let mut in_quotes = false;
    let mut line: u128 = 1;
    let mut quote_line: u128 = 1;
    let mut i: usize = 0;
    proof {
        assert(records_view(records@) =~= Seq::<Seq<Seq<char>>>::empty());
        assert(fields@.map_values(|f: Vec<char>| f@) =~= Seq::<Seq<char>>::empty());
        assert(field@ =~= Seq::<char>::empty());
    }
    while i < input.len()
        invariant
            input@ == source@,
            i <= input.len(),
            line <= i + 1,
            quote_line <= line,
            csv_records(source@) == csv_from(
                input@,
                i as int,
                CsvState {
                    records: records_view(records@),
                    fields: fields@.map_values(|f: Vec<char>| f@),
                    field: field@,
                    quoted,
                    in_quotes,
                    line: line as nat,
                    quote_line: quote_line as nat,
                },
            ),
        decreases input.len() - i,
    {
        let ghost st = CsvState {
            records: records_view(records@),
            fields: fields@.map_values(|f: Vec<char>| f@),
            field: field@,
            quoted,
            in_quotes,
            line: line as nat,
            quote_line: quote_line as nat,
        };
        let c = input[i];
        let next_is_lf = i + 1 < input.len() && input[i + 1] == '\n';
        let next_is_quote = i + 1 < input.len() && input[i + 1] == '"';
        let ghost (next, used) = csv_step(input@, i as int, st);
        if in_quotes {
            if c == '"' {
                if next_is_quote {
                    field.push('"');
                    i = i + 2;
                } else {
                    in_quotes = false;
                    i = i + 1;
                }
            } else {
                if c == '\n' {
                    line = line + 1;
                }
                field.push(c);
                i = i + 1;
            }
        } else if c == ',' {
            let mut done: Vec<char> = Vec::new();
            std::mem::swap(&mut done, &mut field);
            fields.push(done);
            quoted = false;
            i = i + 1;
            proof {
                assert(fields@.map_values(|f: Vec<char>| f@) =~= st.fields.push(st.field));
            }
        } else if c == '\n' || (c == '\r' && next_is_lf) {
            if fields.len() > 0 || field.len() > 0 || quoted {
                let mut done: Vec<char> = Vec::new();
            std::mem::swap(&mut done, &mut field);
                fields.push(done);
                let mut record_fields: Vec<Vec<char>> = Vec::new();
                std::mem::swap(&mut record_fields, &mut fields);
                let ghost closed_fields = record_fields@.map_values(|f: Vec<char>| f@);
                proof {
                    assert(closed_fields =~= st.fields.push(st.field));
                }
                let record = strings_of(&record_fields);
                records.push(record);
                quoted = false;
                proof {
                    assert(records_view(records@) =~= st.records.push(closed_fields));
                    assert(fields@.map_values(|f: Vec<char>| f@) =~= Seq::<Seq<char>>::empty());
                }
            }
            line = line + 1;
            if c == '\r' {
                i = i + 2;
            } else {
                i = i + 1;
            }
        } else if c == '"' && field.len() == 0 && !quoted {
            quoted = true;
            in_quotes = true;
            quote_line = line;
            i = i + 1;
        } else {
            field.push(c);
            i = i + 1;
        }
    }
    if in_quotes {
        let mut message = String::new();
        push_text(&mut message, "line ");
        push_number(&mut message, quote_line);
        push_text(&mut message, ": unterminated quoted field");
        proof {
            assert(message@ =~= "line "@ + decimal(quote_line as nat) + ": unterminated quoted field"@);
        }
        return Err(message);
    }
    if fields.len() > 0 || field.len() > 0 || quoted {
        let ghost st_fields = fields@.map_values(|f: Vec<char>| f@);
        let ghost st_field = field@;
        fields.push(field);
        proof {
            assert(fields@.map_values(|f: Vec<char>| f@) =~= st_fields.push(st_field));
        }
        let record = strings_of(&fields);
        let ghost old_records = records_view(records@);
        records.push(record);
        proof {
            assert(records_view(records@) =~= old_records.push(st_fields.push(st_field)));
        }
    }
    Ok(records)
}

} // verus!
