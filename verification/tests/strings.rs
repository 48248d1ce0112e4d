use rogue_hunter::strings::{StringId, StringTable};

const TABLE: &str = "id,context,english\r\nui.a,Somewhere,[Hello {who}.]\r\n";

#[test]
fn parses_a_table_and_resolves_an_id() {
    let table = StringTable::parse(TABLE).expect("parses");
    assert_eq!(table.len(), 1);
    assert_eq!(table.try_get("ui.a"), Some("[Hello {who}.]"));
    assert_eq!(table.row("ui.a").expect("row").context, "Somewhere");
}

#[test]
fn fill_substitutes_named_placeholders() {
    let table = StringTable::parse(TABLE).expect("parses");
    assert_eq!(table.fill(&StringId::from("ui.a"), &[("who", "the miller")]), "[Hello the miller.]");
}

#[test]
fn a_wrong_header_is_refused() {
    assert!(StringTable::parse("id,english\r\nui.a,x\r\n").is_err());
}

#[test]
fn a_duplicate_id_is_refused() {
    let source = "id,context,english\r\nui.a,c,[one]\r\nui.a,c,[two]\r\n";
    assert!(StringTable::parse(source).is_err());
}

#[test]
fn a_ragged_row_is_refused() {
    assert!(StringTable::parse("id,context,english\r\nui.a,only-two\r\n").is_err());
}

#[test]
fn a_missing_id_reads_as_a_marker() {
    let table = StringTable::parse(TABLE).expect("parses");
    assert_eq!(table.try_get("ui.b"), None);
    assert_eq!(table.ui("ui.b"), "[!missing]");
    assert_eq!(table.get(&StringId::from("ui.a")), "[Hello {who}.]");
}

#[test]
fn rows_and_ids_come_in_id_order() {
    let table = StringTable::parse("id,context,english\nui.b,B,[b]\nui.a,A,[a]\n").expect("parses");
    assert_eq!(table.ids(), vec!["ui.a", "ui.b"]);
    let rows = table.rows();
    assert_eq!(rows[0].0, "ui.a");
    assert_eq!(rows[1].1.english, "[b]");
    assert!(!table.is_empty());
}

#[test]
fn fill_leaves_unknown_placeholders_alone() {
    let table = StringTable::parse("id,context,english\nui.x,C,{a} and {b} and {a}\n").expect("parses");
    assert_eq!(table.fill(&StringId::from("ui.x"), &[("a", "1")]), "1 and {b} and 1");
}
