use corpus::tcl_test::{
    contains, extract_sql_candidate, find_test_cases, trim_sql_block, unescape, Candidate,
    CandidateKind, ParseFailure, Rejected, TclTestParser,
};

fn cases(script: &str) -> Vec<(String, usize)> {
    find_test_cases(script.as_bytes())
        .unwrap()
        .into_iter()
        .map(|(body, line)| (String::from_utf8(body).unwrap(), line))
        .collect()
}

#[test]
fn test_trim_sql_block() {
    assert_eq!(trim_sql_block(b"{}"), Some(b"".to_vec()));
    assert_eq!(trim_sql_block(b"{select 1}"), Some(b"select 1".to_vec()));
    assert_eq!(trim_sql_block(b"{\nselect 1\n}"), Some(b"\nselect 1\n".to_vec()));
}

#[test]
fn trim_removes_shared_indentation() {
    assert_eq!(
        trim_sql_block(b"{\n    select 1\n      from t;\n  }"),
        Some(b"\nselect 1\n  from t;\n".to_vec())
    );
    assert_eq!(trim_sql_block(b""), Some(b"".to_vec()));
    assert_eq!(trim_sql_block(b"{"), Some(b"".to_vec()));
    assert_eq!(trim_sql_block(b"\"x\""), Some(b"x".to_vec()));
}

#[test]
fn trim_refuses_bytes_that_are_no_text() {
    assert_eq!(trim_sql_block(&[b'{', 0xff, b'}']), None);
    assert_eq!(trim_sql_block("{é}".as_bytes()), Some("é".as_bytes().to_vec()));
}

#[test]
fn unescape_resolves_three_escapes_in_order() {
    assert_eq!(unescape(b"a\\\nb"), b"a b".to_vec());
    assert_eq!(unescape(b"a\\nb"), b"a\nb".to_vec());
    assert_eq!(unescape(b"a\\rb"), b"a\rb".to_vec());
    assert_eq!(unescape(b"select 1;\\n\\\nselect 2;\\r"), b"select 1;\n select 2;\r".to_vec());
    assert_eq!(unescape(b""), b"".to_vec());
    assert_eq!(unescape(b"\\"), b"\\".to_vec());
    assert_eq!(unescape(b"\\\\n"), b"\\\n".to_vec());
    assert_eq!(unescape(b"\\t"), b"\\t".to_vec());
    let text = "a\\\nb\\nc\\rd\\\\n";
    assert_eq!(
        unescape(text.as_bytes()),
        text.replace("\\\n", " ").replace("\\n", "\n").replace("\\r", "\r").into_bytes()
    );
}

#[test]
fn substitution_markers_are_found_unless_escaped() {
    assert!(contains(b"select $x"));
    assert!(contains(b"select [expr 1]"));
    assert!(!contains(b"select 1"));
    assert!(!contains(b"select \\$x"));
    assert!(!contains(b"select \\[x]"));
    assert!(contains(b"\\\\$x"));
    assert!(!contains(b""));
    assert!(!contains(b"\\"));
}

#[test]
fn candidate_of_each_shape() {
    assert_eq!(
        extract_sql_candidate(CandidateKind::Block, b"{\n  select 1;\n}", 7),
        Ok((b"\nselect 1;\n".to_vec(), 7))
    );
    assert_eq!(
        extract_sql_candidate(CandidateKind::Block, b"{select 1;\\nselect 2;}", 1),
        Ok((b"select 1;\nselect 2;".to_vec(), 1))
    );
    assert_eq!(
        extract_sql_candidate(CandidateKind::DQuote, b"\"select 1;\\nselect 2;\"", 3),
        Ok((b"select 1;\nselect 2;".to_vec(), 3))
    );
    assert_eq!(
        extract_sql_candidate(CandidateKind::DQuote, b"\"select $x\"", 3),
        Err(Rejected::Substitution)
    );
    assert_eq!(
        extract_sql_candidate(CandidateKind::DQuote, b"\"select [f]\"", 3),
        Err(Rejected::Substitution)
    );
    assert_eq!(
        extract_sql_candidate(CandidateKind::DQuote, &[b'"', 0xc3, b'"'], 3),
        Err(Rejected::NotText)
    );
    assert_eq!(
        extract_sql_candidate(CandidateKind::Word, b"COMMIT", 9),
        Ok((b"COMMIT".to_vec(), 9))
    );
}

#[test]
fn blocks_are_matched_by_depth() {
    let script = "do_execsql_test t-1 {\n  SELECT '{a {b} c}';\n} {x}\n";
    assert_eq!(cases(script), vec![("\nSELECT '{a {b} c}';\n".to_string(), 1)]);
    let found = TclTestParser::parse(script.as_bytes()).unwrap();
    assert_eq!(
        found,
        vec![Candidate { kind: CandidateKind::Block, start: 20, end: 45 }]
    );
}

#[test]
fn bodies_carry_their_line() {
    let script = "# header\nset x 1\n\ndo_test t-1 {\n  execsql {\n    SELECT 1;\n  }\n} {1}\n\ndo_test t-2 {\n  catchsql {SELECT 2}\n} {0 2}\ndb eval {SELECT 3}\nexecsql COMMIT\n";
    assert_eq!(
        cases(script),
        vec![
            ("\nSELECT 1;\n".to_string(), 5),
            ("SELECT 2".to_string(), 11),
            ("SELECT 3".to_string(), 13),
            ("COMMIT".to_string(), 14),
        ]
    );
}

#[test]
fn quoted_sql_with_substitution_is_left_out() {
    let script = "execsql \"SELECT $x\"\nexecsql \"SELECT 1\"\nexecsql $sql\ndo_catchsql_test n \"SELECT\\n2\" {}\n";
    assert_eq!(
        cases(script),
        vec![("SELECT 1".to_string(), 2), ("SELECT\n2".to_string(), 4)]
    );
}

#[test]
fn comments_and_strings_hide_commands() {
    let script = "# execsql {SELECT 0}\nputs \"execsql {SELECT 1}\"\nexecsql {SELECT 2}\n";
    assert_eq!(cases(script), vec![("SELECT 2".to_string(), 3)]);
}

#[test]
fn escaped_brace_does_not_close_a_block() {
    let script = "execsql {SELECT '\\}' }";
    assert_eq!(cases(script), vec![("SELECT '\\}' ".to_string(), 1)]);
}

#[test]
fn unclosed_argument_is_reported_with_its_place() {
    assert_eq!(
        find_test_cases(b"set x 1\n  execsql {SELECT 1\n"),
        Err(ParseFailure { line: 2, column: 11 })
    );
    assert_eq!(
        find_test_cases(b"execsql \"SELECT 1\n"),
        Err(ParseFailure { line: 1, column: 9 })
    );
    assert_eq!(TclTestParser::parse(b"set x 1\n  execsql {SELECT 1\n"), Err(18));
    assert_eq!(find_test_cases(b""), Ok(vec![]));
    assert_eq!(find_test_cases(b"puts \"unclosed\n"), Ok(vec![]));
}
