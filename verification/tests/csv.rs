use rogue_hunter::csv::parse;

fn rows(source: &str) -> Vec<Vec<String>> {
    parse(source).expect("parses")
}

#[test]
fn a_quoted_field_may_contain_a_comma() {
    assert_eq!(rows(r#"id,"one, two",z"#), vec![vec!["id", "one, two", "z"]]);
}

#[test]
fn a_doubled_quote_is_one_literal_quote() {
    assert_eq!(rows(r#"id,"she said ""no""","#), vec![vec!["id", r#"she said "no""#, ""]]);
}

#[test]
fn crlf_and_lf_both_end_a_record() {
    // Content files are CRLF; the table must not care.
    assert_eq!(rows("a,b\r\nc,d\ne,f"), vec![vec!["a", "b"], vec!["c", "d"], vec!["e", "f"],]);
}

#[test]
fn an_unterminated_quote_is_an_error() {
    assert!(parse("id,\"never closed").is_err());
}

#[test]
fn an_unterminated_quote_names_its_line() {
    assert_eq!(parse("a,b\nc,\"open").unwrap_err(), "line 2: unterminated quoted field");
}

#[test]
fn a_quoted_field_may_span_lines() {
    assert_eq!(rows("a,\"two\nlines\"\nb"), vec![vec!["a", "two\nlines"], vec!["b"]]);
}

#[test]
fn an_empty_source_has_no_records() {
    assert!(rows("").is_empty());
}
